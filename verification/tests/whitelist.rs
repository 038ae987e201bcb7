use netmonitor::address::{IpRange, PeerIp};
use netmonitor::whitelist::{entry_matches, ip_allowed, reading_matches};

fn v4(a: u8, b: u8, c: u8, d: u8) -> PeerIp {
    PeerIp::V4(u32::from_be_bytes([a, b, c, d]))
}

fn list(entries: &[&str]) -> Vec<String> {
    entries.iter().map(|e| e.to_string()).collect()
}

#[test]
fn range_holds_addresses_sharing_its_prefix() {
    let range = IpRange::V4 { addr: 0x0A00_0000, prefix: 8 };
    assert!(range.contains(v4(10, 1, 2, 3)));
    assert!(range.contains(v4(10, 255, 255, 255)));
    assert!(!range.contains(v4(11, 0, 0, 0)));
    assert!(!range.contains(v4(8, 8, 8, 8)));
}

#[test]
fn range_of_full_prefix_holds_one_address() {
    let range = IpRange::V4 { addr: 0x7F00_0001, prefix: 32 };
    assert!(range.contains(v4(127, 0, 0, 1)));
    assert!(!range.contains(v4(127, 0, 0, 2)));
    let wide = IpRange::V6 { addr: 1, prefix: 128 };
    assert!(wide.contains(PeerIp::V6(1)));
    assert!(!wide.contains(PeerIp::V6(2)));
}

#[test]
fn range_of_zero_prefix_holds_its_family() {
    let all4 = IpRange::V4 { addr: 0, prefix: 0 };
    assert!(all4.contains(v4(8, 8, 8, 8)));
    assert!(all4.contains(PeerIp::V4(u32::MAX)));
    assert!(!all4.contains(PeerIp::V6(0)));
    let all6 = IpRange::V6 { addr: 0, prefix: 0 };
    assert!(all6.contains(PeerIp::V6(u128::MAX)));
    assert!(!all6.contains(v4(8, 8, 8, 8)));
}

#[test]
fn range_never_holds_the_other_family() {
    let range = IpRange::V4 { addr: 0x0A00_0000, prefix: 8 };
    assert!(!range.contains(PeerIp::V6(0x0A00_0000)));
    let range6 = IpRange::V6 { addr: 0x0A00_0000, prefix: 100 };
    assert!(!range6.contains(PeerIp::V4(0x0A00_0000)));
}

#[test]
fn v6_range_compares_leading_bits() {
    // 2001:db8::/32
    let base: u128 = 0x2001_0db8 << 96;
    let range = IpRange::V6 { addr: base, prefix: 32 };
    assert!(range.contains(PeerIp::V6(base | 0xdead_beef)));
    assert!(!range.contains(PeerIp::V6((0x2001_0db9u128) << 96)));
}

#[test]
fn odd_prefix_splits_inside_an_octet() {
    // 192.168.0.0/23 holds 192.168.0.x and 192.168.1.x
    let range = IpRange::V4 { addr: 0xC0A8_0000, prefix: 23 };
    assert!(range.contains(v4(192, 168, 1, 255)));
    assert!(!range.contains(v4(192, 168, 2, 0)));
}

#[test]
fn reading_admits_by_range_or_by_address() {
    let range = IpRange::V4 { addr: 0x0A00_0000, prefix: 8 };
    let outside = v4(8, 8, 8, 8);
    let inside = v4(10, 1, 2, 3);
    assert!(reading_matches(Some(range), None, inside));
    assert!(!reading_matches(Some(range), None, outside));
    assert!(reading_matches(Some(range), Some(outside), outside));
    assert!(reading_matches(Some(range), Some(outside), inside));
    assert!(!reading_matches(Some(range), Some(v4(8, 8, 4, 4)), outside));
    assert!(reading_matches(None, Some(outside), outside));
    assert!(!reading_matches(None, Some(v4(8, 8, 4, 4)), outside));
    assert!(!reading_matches(None, None, outside));
}

#[test]
fn cidr_entry_admits_members_only() {
    assert!(entry_matches("10.0.0.0/8", v4(10, 1, 2, 3)));
    assert!(!entry_matches("10.0.0.0/8", v4(8, 8, 8, 8)));
    assert!(entry_matches("127.0.0.1/32", v4(127, 0, 0, 1)));
    assert!(!entry_matches("127.0.0.1/32", v4(127, 0, 0, 2)));
}

#[test]
fn cidr_entry_with_netmask_is_read() {
    assert!(entry_matches("192.168.1.0/255.255.255.0", v4(192, 168, 1, 77)));
    assert!(!entry_matches("192.168.1.0/255.255.255.0", v4(192, 168, 2, 77)));
}

#[test]
fn single_address_entry_admits_itself() {
    assert!(entry_matches("192.168.1.5", v4(192, 168, 1, 5)));
    assert!(!entry_matches("192.168.1.5", v4(192, 168, 1, 6)));
    assert!(entry_matches("::1", PeerIp::V6(1)));
    assert!(!entry_matches("::1", PeerIp::V6(2)));
}

#[test]
fn v6_entry_is_read_in_network_order() {
    let ip: u128 = (0x2001_0db8u128 << 96) | 0x42;
    assert!(entry_matches("2001:db8::/32", PeerIp::V6(ip)));
    assert!(!entry_matches("2001:db8::/32", PeerIp::V6(ip ^ (1u128 << 127))));
    assert!(!entry_matches("2001:db8::/32", v4(32, 1, 13, 184)));
}

#[test]
fn unreadable_entry_admits_nobody() {
    for entry in ["", "not an address", "10.0.0.0/33", "10.0.0/8", "10.0.0.0/8/8", "1.2.3.4.5"] {
        assert!(!entry_matches(entry, v4(10, 1, 2, 3)), "{:?}", entry);
    }
}

#[test]
fn unreadable_entries_are_skipped() {
    let entries = list(&["not an address", "10.0.0.0/8", "300.1.1.1/99"]);
    assert!(ip_allowed(&entries, v4(10, 1, 2, 3)));
    assert!(!ip_allowed(&entries, v4(8, 8, 8, 8)));
    let without = list(&["10.0.0.0/8"]);
    assert_eq!(ip_allowed(&entries, v4(10, 1, 2, 3)), ip_allowed(&without, v4(10, 1, 2, 3)));
    assert_eq!(ip_allowed(&entries, v4(8, 8, 8, 8)), ip_allowed(&without, v4(8, 8, 8, 8)));
}

#[test]
fn empty_list_admits_nobody() {
    assert!(!ip_allowed(&Vec::new(), v4(127, 0, 0, 1)));
}

#[test]
fn any_entry_of_the_list_may_admit() {
    let entries = list(&["192.168.0.0/16", "10.0.0.0/8", "::1"]);
    assert!(ip_allowed(&entries, v4(192, 168, 3, 4)));
    assert!(ip_allowed(&entries, v4(10, 9, 8, 7)));
    assert!(ip_allowed(&entries, PeerIp::V6(1)));
    assert!(!ip_allowed(&entries, v4(172, 16, 0, 1)));
}
