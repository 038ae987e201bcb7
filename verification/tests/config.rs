use netmonitor::config::{
    generate_token, settle_config, AppConfig, ConfigInvalid, WhitelistConfig, DEFAULT_PORT, TOKEN_LEN,
};

fn stored(token: &str) -> AppConfig {
    AppConfig {
        host: "192.0.2.1".to_string(),
        port: 8080,
        whitelist: WhitelistConfig { enabled: false, list: vec!["10.0.0.0/8".to_string()] },
        token: token.to_string(),
    }
}

fn is_fresh(token: &str) -> bool {
    token.len() == 32 && token.bytes().all(|b| b.is_ascii_alphanumeric())
}

#[test]
fn generated_token_is_32_letters_and_digits() {
    assert_eq!(TOKEN_LEN, 32);
    for _ in 0..50 {
        let token = generate_token();
        assert_eq!(token.chars().count(), 32);
        assert!(token.chars().all(|c| c.is_ascii_alphanumeric()), "{}", token);
    }
}

#[test]
fn generated_tokens_differ() {
    assert_ne!(generate_token(), generate_token());
}

#[test]
fn default_config_has_the_documented_shape() {
    let config = AppConfig::default();
    assert_eq!(config.host, "0.0.0.0");
    assert_eq!(config.port, 2141);
    assert_eq!(DEFAULT_PORT, 2141);
    assert!(config.whitelist.enabled);
    assert_eq!(config.whitelist.list, vec!["127.0.0.1/32".to_string()]);
    assert!(is_fresh(&config.token));
}

#[test]
fn stored_config_with_token_is_kept() {
    let (config, save) = settle_config(Some(stored("abc123"))).unwrap();
    assert!(!save);
    assert_eq!(config.host, "192.0.2.1");
    assert_eq!(config.port, 8080);
    assert!(!config.whitelist.enabled);
    assert_eq!(config.whitelist.list, vec!["10.0.0.0/8".to_string()]);
    assert_eq!(config.token, "abc123");
}

#[test]
fn stored_config_without_token_gets_one_and_is_saved() {
    let (config, save) = settle_config(Some(stored(""))).unwrap();
    assert!(save);
    assert_eq!(config.host, "192.0.2.1");
    assert_eq!(config.port, 8080);
    assert!(!config.whitelist.enabled);
    assert_eq!(config.whitelist.list, vec!["10.0.0.0/8".to_string()]);
    assert!(is_fresh(&config.token));
}

#[test]
fn missing_config_is_invalid() {
    assert_eq!(settle_config(None).unwrap_err(), ConfigInvalid);
}

#[test]
fn token_drawn_for_stored_config_is_kept_once_stored() {
    let (first, save) = settle_config(Some(stored(""))).unwrap();
    assert!(save);
    let token = first.token.clone();
    let (second, save_again) = settle_config(Some(first)).unwrap();
    assert!(!save_again);
    assert_eq!(second.token, token);
}
