use netmonitor::token::{header_presents, query_has_token};

#[test]
fn bearer_header_with_the_token_is_accepted() {
    assert!(header_presents("Bearer abc123", "abc123"));
}

#[test]
fn bearer_header_with_another_token_is_refused() {
    assert!(!header_presents("Bearer abc124", "abc123"));
    assert!(!header_presents("Bearer abc12", "abc123"));
    assert!(!header_presents("Bearer abc1234", "abc123"));
    assert!(!header_presents("Bearer ", "abc123"));
}

#[test]
fn bearer_prefix_is_exact() {
    assert!(!header_presents("bearer abc123", "abc123"));
    assert!(!header_presents("Bearer  abc123", "abc123"));
    assert!(!header_presents("Bearerabc123", "abc123"));
    assert!(!header_presents("Basic abc123", "abc123"));
    assert!(!header_presents("abc123", "abc123"));
    assert!(!header_presents("", "abc123"));
    assert!(!header_presents("Bear", "abc123"));
}

#[test]
fn bearer_header_holds_any_characters() {
    assert!(header_presents("Bearer pässwörd", "pässwörd"));
    assert!(!header_presents("Bearer passwörd", "pässwörd"));
}

#[test]
fn query_token_alone_is_found() {
    assert!(query_has_token("token=abc123", "abc123"));
    assert!(!query_has_token("token=wrong", "abc123"));
}

#[test]
fn query_token_is_found_in_any_position() {
    assert!(query_has_token("foo=bar&token=T", "T"));
    assert!(query_has_token("token=T&foo=bar", "T"));
    assert!(query_has_token("a=1&token=T&b=2", "T"));
    assert!(!query_has_token("a=1&b=2", "T"));
}

#[test]
fn query_order_does_not_matter() {
    for (a, b) in [("foo=bar", "token=T"), ("token=x", "token=T"), ("x", "y"), ("", "token=T")] {
        let ab = format!("{}&{}", a, b);
        let ba = format!("{}&{}", b, a);
        assert_eq!(query_has_token(&ab, "T"), query_has_token(&ba, "T"));
        assert_eq!(
            query_has_token(&ab, "T"),
            query_has_token(a, "T") || query_has_token(b, "T")
        );
    }
}

#[test]
fn query_later_pair_may_hold_the_token() {
    assert!(query_has_token("token=wrong&token=abc123", "abc123"));
}

#[test]
fn query_pair_without_equals_has_no_value() {
    assert!(!query_has_token("token", "abc123"));
    assert!(!query_has_token("token", ""));
    assert!(!query_has_token("", ""));
    assert!(query_has_token("token=", ""));
}

#[test]
fn query_key_is_exact() {
    assert!(!query_has_token("Token=abc123", "abc123"));
    assert!(!query_has_token("tokens=abc123", "abc123"));
    assert!(!query_has_token("xtoken=abc123", "abc123"));
    assert!(!query_has_token("=token=abc123", "abc123"));
}

#[test]
fn query_value_runs_from_the_first_equals_to_the_end_of_the_pair() {
    assert!(query_has_token("token=a=b", "a=b"));
    assert!(!query_has_token("token=a=b", "a"));
    assert!(!query_has_token("token=abc123x", "abc123"));
    assert!(!query_has_token("token=abc12", "abc123"));
}

#[test]
fn query_value_is_not_decoded() {
    assert!(!query_has_token("token=abc%31", "abc1"));
    assert!(query_has_token("token=abc%31", "abc%31"));
}

#[test]
fn token_with_ampersand_is_never_found_in_a_query() {
    assert!(!query_has_token("token=a&b", "a&b"));
}

#[test]
fn empty_pairs_are_passed_over() {
    assert!(query_has_token("&&token=T&", "T"));
    assert!(!query_has_token("&&&", "T"));
}
