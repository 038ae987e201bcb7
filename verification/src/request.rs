//! An incoming request, as far as access control looks at it.

use vstd::prelude::*;
use crate::address::PeerIp;
use crate::text::chars_of;

verus! {

/// One header line: a name and its value.
#[derive(Debug, Clone)]
pub struct Header {
    pub name: String,
    pub value: String,
}

/// The parts of a request that decide on access: who sent it, its headers in the order
/// they arrived in, and its query string, undecoded.
#[derive(Debug, Clone)]
pub struct RequestDescriptor {
    /// The sender's address, where it is known.
    pub peer_ip: Option<PeerIp>,
    pub headers: Vec<Header>,
    /// What follows the `?` of the request's target; empty where there is none.
    pub query_string: String,
}

/// An ASCII capital letter as its small letter, any other character as itself.
pub open spec fn ascii_lower(c: char) -> char {
    if 'A' <= c && c <= 'Z' {
        ((c as u8) + 32) as char
    } else {
        c
    }
}

/// The name of the header that carries a credential, in small letters.
pub open spec fn authorization_name() -> Seq<char> {
    seq!['a', 'u', 't', 'h', 'o', 'r', 'i', 'z', 'a', 't', 'i', 'o', 'n']
}

/// Header names are told apart without regard to the case of ASCII letters.
pub open spec fn names_authorization(name: Seq<char>) -> bool {
    name.len() == authorization_name().len() && forall|i: int|
        0 <= i < name.len() ==> ascii_lower(#[trigger] name[i]) == authorization_name()[i]
}

/// The value of the first `Authorization` header, where there is one.
pub open spec fn authorization_of(headers: Seq<Header>) -> Option<Seq<char>>
    decreases headers.len(),
{
    if headers.len() == 0 {
        None
    } else if names_authorization(headers[0].name@) {
        Some(headers[0].value@)
    } else {
        authorization_of(headers.drop_first())
    }
}

fn to_ascii_lower(c: char) -> (l: char)
    ensures
        l == ascii_lower(c),
{
    if 'A' <= c && c <= 'Z' {
        ((c as u8) + 32) as char
    } else {
        c
    }
}

/// Tests whether a header name is `Authorization`, in any mix of cases.
pub fn is_authorization(name: &str) -> (b: bool)
    ensures
        b == names_authorization(name@),
{
    let given = chars_of(name);
    let wanted: Vec<char> = vec!['a', 'u', 't', 'h', 'o', 'r', 'i', 'z', 'a', 't', 'i', 'o', 'n'];
    proof {
        assert(wanted@ =~= authorization_name());
    }
    if given.len() != wanted.len() {
        return false;
    }
    let mut i: usize = 0;
    while i < given.len()
        invariant
            i <= given.len(),
            given.len() == wanted.len(),
            given@ == name@,
            wanted@ == authorization_name(),
            forall|k: int| 0 <= k < i ==> ascii_lower(#[trigger] given@[k]) == wanted@[k],
        decreases given.len() - i,
    {
        if to_ascii_lower(given[i]) != wanted[i] {
            return false;
        }
        i += 1;
    }
    true
}

impl RequestDescriptor {
    /// The value of the first `Authorization` header, where there is one.
    pub fn authorization(&self) -> (value: Option<&str>)
        ensures
            match value {
                Some(text) => authorization_of(self.headers@) == Some(text@),
                None => authorization_of(self.headers@) is None,
            },
    {
        let mut i: usize = 0;
        proof {
            assert(self.headers@.subrange(0, self.headers@.len() as int) =~= self.headers@);
        }
        while i < self.headers.len()
            invariant
                i <= self.headers.len(),
                authorization_of(self.headers@) == authorization_of(
                    self.headers@.subrange(i as int, self.headers@.len() as int),
                ),
            decreases self.headers.len() - i,
        {
            let ghost rest = self.headers@.subrange(i as int, self.headers@.len() as int);
            proof {
                assert(rest.drop_first() =~= self.headers@.subrange(
                    i + 1,
                    self.headers@.len() as int,
                ));
            }
            if is_authorization(self.headers[i].name.as_str()) {
                return Some(self.headers[i].value.as_str());
            }
            i += 1;
        }
        None
    }
}

} // verus!
