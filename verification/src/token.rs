//! Recognising the shared token in an `Authorization` header or a query string.

use vstd::prelude::*;
use crate::text::chars_of;

verus! {

/// The scheme word and the blank that precede a bearer credential.
pub open spec fn bearer_prefix() -> Seq<char> {
    seq!['B', 'e', 'a', 'r', 'e', 'r', ' ']
}

/// The key under which a query string carries the token.
pub open spec fn token_key() -> Seq<char> {
    seq!['t', 'o', 'k', 'e', 'n']
}

/// A header value presents `token` when it is the bearer prefix followed by
/// exactly the token.
pub open spec fn bearer_presents(value: Seq<char>, token: Seq<char>) -> bool {
    value == bearer_prefix() + token
}

/// The position of the first `c` in `s`, or the length of `s` where there is none.
pub open spec fn first_index(s: Seq<char>, c: char) -> int
    decreases s.len(),
{
    if s.len() == 0 || s[0] == c {
        0
    } else {
        1 + first_index(s.drop_first(), c)
    }
}

/// The key of a query pair: what stands before its first `=`, or all of it.
pub open spec fn pair_key(pair: Seq<char>) -> Seq<char> {
    pair.subrange(0, first_index(pair, '='))
}

/// The value of a query pair: what follows its first `=`. A pair without `=`
/// has no value.
pub open spec fn pair_value(pair: Seq<char>) -> Option<Seq<char>> {
    let at = first_index(pair, '=');
    if at < pair.len() {
        Some(pair.subrange(at + 1, pair.len() as int))
    } else {
        None
    }
}

/// A pair presents `token` when its key is `token` and its value is exactly the token.
pub open spec fn pair_presents(pair: Seq<char>, token: Seq<char>) -> bool {
    pair_key(pair) == token_key() && pair_value(pair) == Some(token)
}

/// The pairs of a query string: the pieces between its `&` signs, in order.
/// A string without `&` is one pair, the empty string included.
pub open spec fn query_pairs(query: Seq<char>) -> Seq<Seq<char>>
    decreases query.len(),
{
    let at = first_index(query, '&');
    if 0 <= at < query.len() {
        seq![query.subrange(0, at)] + query_pairs(query.subrange(at + 1, query.len() as int))
    } else {
        seq![query]
    }
}

/// A query string presents `token` when one of its pairs does.
pub open spec fn query_presents(query: Seq<char>, token: Seq<char>) -> bool {
    exists|i: int|
        0 <= i < query_pairs(query).len() && pair_presents(
            #[trigger] query_pairs(query)[i],
            token,
        )
}

/// `first_index` is in range, stands on the character if it is in range, and
/// nothing before it is the character.
pub proof fn lemma_first_index(s: Seq<char>, c: char)
    ensures
        0 <= first_index(s, c) <= s.len(),
        first_index(s, c) < s.len() ==> s[first_index(s, c)] == c,
        forall|k: int| 0 <= k < first_index(s, c) ==> s[k] != c,
    decreases s.len(),
{
    if s.len() == 0 || s[0] == c {
    } else {
        lemma_first_index(s.drop_first(), c);
        assert forall|k: int| 0 <= k < first_index(s, c) implies s[k] != c by {
            if k > 0 {
                assert(s[k] == s.drop_first()[k - 1]);
            }
        }
    }
}

/// The position that `first_index` names is the only one with its three properties.
pub proof fn lemma_first_index_unique(s: Seq<char>, c: char, at: int)
    requires
        0 <= at <= s.len(),
        at < s.len() ==> s[at] == c,
        forall|k: int| 0 <= k < at ==> s[k] != c,
    ensures
        first_index(s, c) == at,
{
    lemma_first_index(s, c);
}

/// Finds the first `c` in `v[from..to]`; returns `to` where there is none.
fn find_in(v: &Vec<char>, from: usize, to: usize, c: char) -> (at: usize)
    requires
        from <= to <= v.len(),
    ensures
        at == from + first_index(v@.subrange(from as int, to as int), c),
        from <= at <= to,
{
    let mut at: usize = from;
    while at < to && v[at] != c
        invariant
            from <= at <= to <= v.len(),
            forall|k: int| from <= k < at ==> v@[k] != c,
        decreases to - at,
    {
        at += 1;
    }
    proof {
        lemma_first_index_unique(v@.subrange(from as int, to as int), c, at - from);
    }
    at
}

/// Tests whether `v[from..to]` spells `word`.
fn span_is(v: &Vec<char>, from: usize, to: usize, word: &Vec<char>) -> (b: bool)
    requires
        from <= to <= v.len(),
    ensures
        b == (v@.subrange(from as int, to as int) == word@),
{
    if to - from != word.len() {
        return false;
    }
    let mut k: usize = 0;
    while k < word.len()
        invariant
            from <= to <= v.len(),
            to - from == word.len(),
            k <= word.len(),
            forall|j: int| 0 <= j < k ==> v@[from + j] == word@[j],
        decreases word.len() - k,
    {
        if v[from + k] != word[k] {
            proof {
                assert(v@.subrange(from as int, to as int)[k as int] != word@[k as int]);
            }
            return false;
        }
        k += 1;
    }
    proof {
        assert(v@.subrange(from as int, to as int) =~= word@);
    }
    true
}

/// Tests whether a header value is `Bearer `, then the token, and nothing more.
pub fn header_presents(value: &str, token: &str) -> (b: bool)
    ensures
        b == bearer_presents(value@, token@),
{
    let given = chars_of(value);
    let word = chars_of(token);
    let prefix: Vec<char> = vec!['B', 'e', 'a', 'r', 'e', 'r', ' '];
    proof {
        assert(prefix@ =~= bearer_prefix());
    }
    if given.len() < 7 {
        return false;
    }
    let b = span_is(&given, 0, 7, &prefix) && span_is(&given, 7, given.len(), &word);
    proof {
        let head = given@.subrange(0, 7);
        let tail = given@.subrange(7, given@.len() as int);
        assert(given@ =~= head + tail);
        if given@ == bearer_prefix() + word@ {
            assert(head =~= bearer_prefix());
            assert(tail =~= word@);
        }
    }
    b
}

/// Tests whether the pair `v[from..to]` has the key `token` and the value `token`.
fn pair_span_presents(v: &Vec<char>, from: usize, to: usize, key: &Vec<char>, token: &Vec<char>) -> (b: bool)
    requires
        from <= to <= v.len(),
        key@ == token_key(),
    ensures
        b == pair_presents(v@.subrange(from as int, to as int), token@),
{
    let ghost pair = v@.subrange(from as int, to as int);
    let eq = find_in(v, from, to, '=');
    proof {
        assert(pair.subrange(0, eq - from) =~= v@.subrange(from as int, eq as int));
        if eq < to {
            assert(pair.subrange(eq - from + 1, pair.len() as int) =~= v@.subrange(
                eq + 1,
                to as int,
            ));
        }
    }
    if eq == to {
        return false;
    }
    span_is(v, from, eq, key) && span_is(v, eq + 1, to, token)
}

/// Tests whether some `&`-separated pair of the query string is `token=`
/// followed by exactly the token. The search stops at the first such pair.
pub fn query_has_token(query: &str, token: &str) -> (b: bool)
    ensures
        b == query_presents(query@, token@),
{
    let q = chars_of(query);
    let word = chars_of(token);
    let key: Vec<char> = vec!['t', 'o', 'k', 'e', 'n'];
    proof {
        assert(key@ =~= token_key());
        assert(q@.subrange(0, q@.len() as int) =~= q@);
    }
    let mut from: usize = 0;
    loop
        invariant
            from <= q.len(),
            q@ == query@,
            word@ == token@,
            key@ == token_key(),
            query_presents(query@, token@) == query_presents(
                q@.subrange(from as int, q@.len() as int),
                token@,
            ),
        decreases q.len() - from,
    {
        let ghost rest = q@.subrange(from as int, q@.len() as int);
        let end = find_in(&q, from, q.len(), '&');
        let hit = pair_span_presents(&q, from, end, &key, &word);
        proof {
            assert(rest.subrange(0, end - from) =~= q@.subrange(from as int, end as int));
            if end < q.len() {
                assert(rest.subrange(end - from + 1, rest.len() as int) =~= q@.subrange(
                    end + 1,
                    q@.len() as int,
                ));
            }
            lemma_query_presents_unfold(rest, token@);
        }
        if hit {
            return true;
        }
        if end == q.len() {
            return false;
        }
        from = end + 1;
    }
}

/// A query string presents the token when its first pair does or, where an
/// `&` follows that pair, when the rest of the string does.
pub proof fn lemma_query_presents_unfold(query: Seq<char>, token: Seq<char>)
    ensures
        query_presents(query, token) == ({
            let at = first_index(query, '&');
            pair_presents(query.subrange(0, at), token) || (at < query.len() && query_presents(
                query.subrange(at + 1, query.len() as int),
                token,
            ))
        }),
{
    lemma_first_index(query, '&');
    let at = first_index(query, '&');
    let pairs = query_pairs(query);
    if at < query.len() {
        let rest = query.subrange(at + 1, query.len() as int);
        let tail = query_pairs(rest);
        assert(pairs == seq![query.subrange(0, at)] + tail);
        if query_presents(query, token) {
            let i = choose|i: int| 0 <= i < pairs.len() && pair_presents(#[trigger] pairs[i], token);
            if i > 0 {
                assert(pairs[i] == tail[i - 1]);
            }
        }
        if pair_presents(query.subrange(0, at), token) {
            assert(pairs[0] == query.subrange(0, at));
        }
        if query_presents(rest, token) {
            let j = choose|j: int| 0 <= j < tail.len() && pair_presents(#[trigger] tail[j], token);
            assert(pairs[j + 1] == tail[j]);
        }
    } else {
        assert(query.subrange(0, at) =~= query);
        assert(pairs == seq![query]);
        if pair_presents(query, token) {
            assert(pairs[0] == query);
        }
    }
}

/// Joining two query strings with `&` joins their pairs.
pub proof fn lemma_query_pairs_join(a: Seq<char>, b: Seq<char>)
    ensures
        query_pairs(a + seq!['&'] + b) == query_pairs(a) + query_pairs(b),
    decreases a.len(),
{
    let joined = a + seq!['&'] + b;
    let at = first_index(a, '&');
    lemma_first_index(a, '&');
    lemma_first_index_unique(joined, '&', at);
    if at < a.len() {
        let rest = a.subrange(at + 1, a.len() as int);
        lemma_query_pairs_join(rest, b);
        assert(joined.subrange(at + 1, joined.len() as int) =~= rest + seq!['&'] + b);
        assert(joined.subrange(0, at) =~= a.subrange(0, at));
        assert(seq![a.subrange(0, at)] + (query_pairs(rest) + query_pairs(b)) =~= (seq![
            a.subrange(0, at),
        ] + query_pairs(rest)) + query_pairs(b));
    } else {
        assert(joined.subrange(at + 1, joined.len() as int) =~= b);
        assert(joined.subrange(0, at) =~= a);
    }
}

/// A query string made of two parts joined by `&` presents the token exactly
/// when one of the parts does.
pub proof fn lemma_query_presents_join(a: Seq<char>, b: Seq<char>, token: Seq<char>)
    ensures
        query_presents(a + seq!['&'] + b, token) == (query_presents(a, token) || query_presents(
            b,
            token,
        )),
{
    lemma_query_pairs_join(a, b);
    let pa = query_pairs(a);
    let pb = query_pairs(b);
    let all = query_pairs(a + seq!['&'] + b);
    if query_presents(a + seq!['&'] + b, token) {
        let i = choose|i: int| 0 <= i < all.len() && pair_presents(#[trigger] all[i], token);
        if i < pa.len() {
            assert(all[i] == pa[i]);
        } else {
            assert(all[i] == pb[i - pa.len()]);
        }
    }
    if query_presents(a, token) {
        let i = choose|i: int| 0 <= i < pa.len() && pair_presents(#[trigger] pa[i], token);
        assert(all[i] == pa[i]);
    }
    if query_presents(b, token) {
        let j = choose|j: int| 0 <= j < pb.len() && pair_presents(#[trigger] pb[j], token);
        assert(all[pa.len() + j] == pb[j]);
    }
}

/// Whether a query string presents the token does not depend on the order of
/// its parts.
pub proof fn lemma_query_order_is_irrelevant(a: Seq<char>, b: Seq<char>, token: Seq<char>)
    ensures
        query_presents(a + seq!['&'] + b, token) == query_presents(b + seq!['&'] + a, token),
{
    lemma_query_presents_join(a, b, token);
    lemma_query_presents_join(b, a, token);
}

/// The pair `token=T` presents `T`, whatever `T` holds.
pub proof fn lemma_token_pair_presents(token: Seq<char>)
    ensures
        pair_presents(token_key() + seq!['='] + token, token),
{
    let pair = token_key() + seq!['='] + token;
    lemma_first_index_unique(pair, '=', 5);
    assert(pair.subrange(0, 5) =~= token_key());
    assert(pair.subrange(6, pair.len() as int) =~= token);
}

/// A token without `&` is found when `token=T` is the only pair, and when it
/// follows any other pairs.
pub proof fn lemma_query_finds_token_after_others(before: Seq<char>, token: Seq<char>)
    requires
        !token.contains('&'),
    ensures
        query_presents(token_key() + seq!['='] + token, token),
        query_presents(before + seq!['&'] + (token_key() + seq!['='] + token), token),
{
    let pair = token_key() + seq!['='] + token;
    lemma_token_pair_presents(token);
    assert forall|k: int| 0 <= k < pair.len() implies pair[k] != '&' by {
        if k >= 6 {
            assert(token.contains(token[k - 6]));
        }
    }
    lemma_first_index_unique(pair, '&', pair.len() as int);
    assert(query_pairs(pair)[0] == pair);
    lemma_query_presents_join(before, pair, token);
}

/// A bearer header made from a token presents that token and no other.
pub proof fn lemma_bearer_presents_only_its_token(carried: Seq<char>, token: Seq<char>)
    ensures
        bearer_presents(bearer_prefix() + carried, token) == (carried == token),
{
    let value = bearer_prefix() + carried;
    if value == bearer_prefix() + token {
        assert(carried =~= value.subrange(7, value.len() as int));
        assert(token =~= (bearer_prefix() + token).subrange(7, value.len() as int));
    }
}

} // verus!
