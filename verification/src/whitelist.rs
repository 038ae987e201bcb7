//! The IP allow-list: entries are CIDR ranges or single addresses, read anew
//! at each check. An entry that is neither admits nobody and stops nothing.

use vstd::prelude::*;
use crate::address::{IpRange, PeerIp};

verus! {

/// The range that `ipnetwork` reads from an entry, where it reads one.
pub uninterp spec fn parsed_range(entry: Seq<char>) -> Option<IpRange>;

/// The address that the standard library reads from an entry, where it reads one.
pub uninterp spec fn parsed_address(entry: Seq<char>) -> Option<PeerIp>;

/// Calls `ipnetwork::IpNetwork::from_str` and hands out the base address and
/// the prefix length of the network it reads. The result is a function of the
/// text alone and is named `parsed_range`.
#[verifier::external_body]
fn parse_range(entry: &str) -> (r: Option<IpRange>)
    ensures
        r == parsed_range(entry@),
{
    match entry.parse::<ipnetwork::IpNetwork>() {
        Ok(ipnetwork::IpNetwork::V4(n)) => Some(
            IpRange::V4 { addr: u32::from(n.ip()), prefix: n.prefix() },
        ),
        Ok(ipnetwork::IpNetwork::V6(n)) => Some(
            IpRange::V6 { addr: u128::from(n.ip()), prefix: n.prefix() },
        ),
        Err(_) => None,
    }
}

/// Calls `str::parse` for an IP address of either family. The result is a
/// function of the text alone and is named `parsed_address`.
#[verifier::external_body]
fn parse_address(entry: &str) -> (r: Option<PeerIp>)
    ensures
        r == parsed_address(entry@),
{
    match entry.parse::<core::net::IpAddr>() {
        Ok(core::net::IpAddr::V4(a)) => Some(PeerIp::V4(u32::from(a))),
        Ok(core::net::IpAddr::V6(a)) => Some(PeerIp::V6(u128::from(a))),
        Err(_) => None,
    }
}

/// What an entry decides once it has been read: it admits the members of the
/// range that was read from it, and the address that was read from it.
/// Where neither was read, nobody is admitted.
pub open spec fn reading_admits(range: Option<IpRange>, address: Option<PeerIp>, ip: PeerIp) -> bool {
    ||| range matches Some(r) && r.spec_contains(ip)
    ||| address == Some(ip)
}

/// Whether the entry, as text, admits `ip`.
pub open spec fn entry_admits(entry: Seq<char>, ip: PeerIp) -> bool {
    reading_admits(parsed_range(entry), parsed_address(entry), ip)
}

/// Whether some entry of the list admits `ip`.
pub open spec fn list_admits(list: Seq<String>, ip: PeerIp) -> bool {
    exists|i: int| 0 <= i < list.len() && entry_admits((#[trigger] list[i])@, ip)
}

/// Decides for an entry that has been read whether it admits `ip`.
pub fn reading_matches(range: Option<IpRange>, address: Option<PeerIp>, ip: PeerIp) -> (b: bool)
    ensures
        b == reading_admits(range, address, ip),
{
    let in_range = match range {
        Some(r) => r.contains(ip),
        None => false,
    };
    in_range || match address {
        Some(a) => a == ip,
        None => false,
    }
}

/// Reads one entry and decides whether it admits `ip`. The entry is tried as
/// a range first, and as a single address where no range is read or the
/// range does not hold `ip`.
pub fn entry_matches(entry: &str, ip: PeerIp) -> (b: bool)
    ensures
        b == entry_admits(entry@, ip),
{
    let range = parse_range(entry);
    if reading_matches(range, None, ip) {
        return true;
    }
    reading_matches(None, parse_address(entry), ip)
}

/// Tests whether any entry of the list admits `ip`, stopping at the first that does.
pub fn ip_allowed(list: &Vec<String>, ip: PeerIp) -> (b: bool)
    ensures
        b == list_admits(list@, ip),
{
    let mut i: usize = 0;
    while i < list.len()
        invariant
            i <= list.len(),
            forall|k: int| 0 <= k < i ==> !entry_admits((#[trigger] list@[k])@, ip),
        decreases list.len() - i,
    {
        if entry_matches(list[i].as_str(), ip) {
            return true;
        }
        i += 1;
    }
    false
}

/// One entry that reads as a range holding `ip`, or as the address `ip`, is
/// enough, whatever the other entries hold and whether or not they can be read.
pub proof fn lemma_one_entry_suffices(list: Seq<String>, at: int, ip: PeerIp)
    requires
        0 <= at < list.len(),
        (parsed_range(list[at]@) matches Some(r) && r.spec_contains(ip)) || parsed_address(
            list[at]@,
        ) == Some(ip),
    ensures
        list_admits(list, ip),
{
    assert(entry_admits(list[at]@, ip));
}

/// An entry that reads neither as a range nor as an address admits nobody.
pub proof fn lemma_unreadable_entry_admits_nobody(entry: Seq<char>, ip: PeerIp)
    requires
        parsed_range(entry) is None,
        parsed_address(entry) is None,
    ensures
        !entry_admits(entry, ip),
{
}

/// Putting an unreadable entry anywhere into a list changes nothing: whoever
/// was admitted still is, and nobody else.
pub proof fn lemma_unreadable_entry_is_skipped(list: Seq<String>, at: int, entry: String, ip: PeerIp)
    requires
        0 <= at <= list.len(),
        parsed_range(entry@) is None,
        parsed_address(entry@) is None,
    ensures
        list_admits(list.insert(at, entry), ip) == list_admits(list, ip),
{
    let longer = list.insert(at, entry);
    if list_admits(list, ip) {
        let i = choose|i: int| 0 <= i < list.len() && entry_admits((#[trigger] list[i])@, ip);
        if i < at {
            assert(longer[i] == list[i]);
        } else {
            assert(longer[i + 1] == list[i]);
        }
    }
    if list_admits(longer, ip) {
        let j = choose|j: int| 0 <= j < longer.len() && entry_admits((#[trigger] longer[j])@, ip);
        if j < at {
            assert(longer[j] == list[j]);
        } else if j > at {
            assert(longer[j] == list[j - 1]);
        }
    }
}

} // verus!
