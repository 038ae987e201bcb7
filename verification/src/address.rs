//! IP addresses and CIDR ranges as plain integers.
//!
//! An address is the integer that its octets spell in network byte order; a
//! range is a base address together with the number of leading bits that an
//! address has to share with it.

use vstd::prelude::*;
use vstd::arithmetic::power2::pow2;

verus! {

/// An IP address of either family.
#[derive(Clone, Copy, Debug, PartialEq, Eq, Structural)]
pub enum PeerIp {
    /// The four octets of an IPv4 address, most significant first.
    V4(u32),
    /// The sixteen octets of an IPv6 address, most significant first.
    V6(u128),
}

/// A CIDR range: every address of the same family whose leading `prefix` bits
/// are those of `addr`.
#[derive(Clone, Copy, Debug, PartialEq, Eq, Structural)]
#[allow(inconsistent_fields)]
pub enum IpRange {
    V4 { addr: u32, prefix: u8 },
    V6 { addr: u128, prefix: u8 },
}

/// Whether `a` and `b`, read as numbers of `width` bits, agree on their
/// leading `prefix` bits. A prefix of `width` or more asks for equality.
pub open spec fn same_leading_bits(a: nat, b: nat, width: nat, prefix: nat) -> bool {
    if prefix >= width {
        a == b
    } else {
        a / pow2((width - prefix) as nat) == b / pow2((width - prefix) as nat)
    }
}

impl IpRange {
    /// Membership of an address in the range. An address of the other family
    /// is never a member.
    pub open spec fn spec_contains(&self, ip: PeerIp) -> bool {
        match (*self, ip) {
            (IpRange::V4 { addr, prefix }, PeerIp::V4(a)) => same_leading_bits(
                addr as nat,
                a as nat,
                32,
                prefix as nat,
            ),
            (IpRange::V6 { addr, prefix }, PeerIp::V6(a)) => same_leading_bits(
                addr as nat,
                a as nat,
                128,
                prefix as nat,
            ),
            _ => false,
        }
    }

    /// Tests whether `ip` lies in the range.
    pub fn contains(&self, ip: PeerIp) -> (b: bool)
        ensures
            b == self.spec_contains(ip),
    {
        match (*self, ip) {
            (IpRange::V4 { addr, prefix }, PeerIp::V4(a)) => {
                if prefix >= 32 {
                    addr == a
                } else if prefix == 0 {
                    proof {
                        lemma_zero_prefix_holds_family(*self, ip);
                    }
                    true
                } else {
                    let shift: u32 = 32 - prefix as u32;
                    proof {
                        vstd::bits::lemma_u32_shr_is_div(addr, shift);
                        vstd::bits::lemma_u32_shr_is_div(a, shift);
                    }
                    (addr >> shift) == (a >> shift)
                }
            },
            (IpRange::V6 { addr, prefix }, PeerIp::V6(a)) => {
                if prefix >= 128 {
                    addr == a
                } else if prefix == 0 {
                    proof {
                        lemma_zero_prefix_holds_family(*self, ip);
                    }
                    true
                } else {
                    let shift: u128 = 128 - prefix as u128;
                    proof {
                        vstd::bits::lemma_u128_shr_is_div(addr, shift);
                        vstd::bits::lemma_u128_shr_is_div(a, shift);
                    }
                    (addr >> shift) == (a >> shift)
                }
            },
            _ => false,
        }
    }
}

/// A range of prefix zero holds every address of its family.
pub proof fn lemma_zero_prefix_holds_family(range: IpRange, ip: PeerIp)
    requires
        match range {
            IpRange::V4 { prefix, .. } => prefix == 0 && ip is V4,
            IpRange::V6 { prefix, .. } => prefix == 0 && ip is V6,
        },
    ensures
        range.spec_contains(ip),
{
    vstd::arithmetic::power2::lemma2_to64();
    match (range, ip) {
        (IpRange::V4 { addr, prefix }, PeerIp::V4(a)) => {
            vstd::arithmetic::div_mod::lemma_basic_div(addr as int, pow2(32) as int);
            vstd::arithmetic::div_mod::lemma_basic_div(a as int, pow2(32) as int);
        },
        (IpRange::V6 { addr, prefix }, PeerIp::V6(a)) => {
            vstd::arithmetic::power2::lemma_pow2_adds(64, 64);
            assert(u128::MAX < 0x1_0000_0000_0000_0000 * 0x1_0000_0000_0000_0000)
                by (nonlinear_arith);
            vstd::arithmetic::div_mod::lemma_basic_div(addr as int, pow2(128) as int);
            vstd::arithmetic::div_mod::lemma_basic_div(a as int, pow2(128) as int);
        },
        _ => {},
    }
}

} // verus!
