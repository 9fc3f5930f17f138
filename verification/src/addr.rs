//! Addresses and networks as plain integers.
//!
//! An IPv4 address is the `u32`, an IPv6 address the `u128` of its bytes in
//! network order. A network is an address and the length of its prefix.

use crate::trie::bit_at;
use vstd::prelude::*;

verus! {

/// An address of either family.
#[derive(Clone, Copy, Debug, PartialEq, Eq, Structural)]
pub enum IpAddr {
    V4(u32),
    V6(u128),
}

/// An IPv4 network in CIDR form.
#[derive(Clone, Copy, Debug, PartialEq, Eq, Structural)]
pub struct Ipv4Net {
    pub addr: u32,
    pub prefix_len: u8,
}

/// An IPv6 network in CIDR form.
#[derive(Clone, Copy, Debug, PartialEq, Eq, Structural)]
pub struct Ipv6Net {
    pub addr: u128,
    pub prefix_len: u8,
}

/// A network of either family.
#[derive(Clone, Copy, Debug, PartialEq, Eq, Structural)]
pub enum IpNet {
    V4(Ipv4Net),
    V6(Ipv6Net),
}

/// The mask that keeps the first `prefix_len` bits of an IPv4 address.
pub open spec fn netmask_v4(prefix_len: u8) -> u32
    recommends
        prefix_len <= 32,
{
    if prefix_len == 0 {
        0
    } else {
        u32::MAX << ((32 - prefix_len) as u32)
    }
}

/// The mask that keeps the first `prefix_len` bits of an IPv6 address.
pub open spec fn netmask_v6(prefix_len: u8) -> u128
    recommends
        prefix_len <= 128,
{
    if prefix_len == 0 {
        0
    } else {
        u128::MAX << ((128 - prefix_len) as u128)
    }
}

/// The network of the given prefix length that `addr` lies in.
pub open spec fn network_v4(addr: u32, prefix_len: u8) -> Ipv4Net
    recommends
        prefix_len <= 32,
{
    Ipv4Net { addr: addr & netmask_v4(prefix_len), prefix_len }
}

/// The network of the given prefix length that `addr` lies in.
pub open spec fn network_v6(addr: u128, prefix_len: u8) -> Ipv6Net
    recommends
        prefix_len <= 128,
{
    Ipv6Net { addr: addr & netmask_v6(prefix_len), prefix_len }
}

impl Ipv4Net {
    /// Whether `addr` lies in the network: whether it has the network's
    /// prefix.
    pub open spec fn contains(self, addr: u32) -> bool {
        addr & netmask_v4(self.prefix_len) == self.addr
    }

    /// The first address of the network.
    pub fn addr(&self) -> (r: u32)
        ensures
            r == self.addr,
    {
        self.addr
    }

    /// The number of leading bits that all addresses of the network share.
    pub fn prefix_len(&self) -> (r: u8)
        ensures
            r == self.prefix_len,
    {
        self.prefix_len
    }
}

impl Ipv6Net {
    /// Whether `addr` lies in the network: whether it has the network's
    /// prefix.
    pub open spec fn contains(self, addr: u128) -> bool {
        addr & netmask_v6(self.prefix_len) == self.addr
    }

    /// The first address of the network.
    pub fn addr(&self) -> (r: u128)
        ensures
            r == self.addr,
    {
        self.addr
    }

    /// The number of leading bits that all addresses of the network share.
    pub fn prefix_len(&self) -> (r: u8)
        ensures
            r == self.prefix_len,
    {
        self.prefix_len
    }
}

impl IpNet {
    /// Whether `addr` is of the network's family and lies in the network.
    pub open spec fn contains(self, addr: IpAddr) -> bool {
        match (self, addr) {
            (IpNet::V4(net), IpAddr::V4(a)) => net.contains(a),
            (IpNet::V6(net), IpAddr::V6(a)) => net.contains(a),
            _ => false,
        }
    }
}

/// Builds the network with `ipnet::Ipv4Net::new_assert` and truncates it
/// with `ipnet::Ipv4Net::trunc`. Trusted: the prefix length is kept, and of
/// the address the bits under `ipnet`'s network mask, which is all ones
/// shifted left by 32 less the prefix length, and zero for the prefix
/// length 0. `new_assert` panics on a prefix length above 32.
#[verifier::external_body]
pub(crate) fn truncated_v4(addr: u32, prefix_len: u8) -> (r: Ipv4Net)
    requires
        prefix_len <= 32,
    ensures
        r == network_v4(addr, prefix_len),
{
    let net = ipnet::Ipv4Net::new_assert(addr.into(), prefix_len).trunc();
    Ipv4Net { addr: net.addr().into(), prefix_len: net.prefix_len() }
}

/// Builds the network with `ipnet::Ipv6Net::new_assert` and truncates it
/// with `ipnet::Ipv6Net::trunc`. Trusted: the prefix length is kept, and of
/// the address the bits under `ipnet`'s network mask, which is all ones
/// shifted left by 128 less the prefix length, and zero for the prefix
/// length 0. `new_assert` panics on a prefix length above 128.
#[verifier::external_body]
pub(crate) fn truncated_v6(addr: u128, prefix_len: u8) -> (r: Ipv6Net)
    requires
        prefix_len <= 128,
    ensures
        r == network_v6(addr, prefix_len),
{
    let net = ipnet::Ipv6Net::new_assert(addr.into(), prefix_len).trunc();
    Ipv6Net { addr: net.addr().into(), prefix_len: net.prefix_len() }
}

/// The key of an IPv4 address: its 32 bits, the most significant first.
pub open spec fn key_v4(addr: u32) -> Seq<bool> {
    Seq::new(32, |k: int| bit_at(addr as u128, 31 - k))
}

/// The key of an IPv6 address: its 128 bits, the most significant first.
pub open spec fn key_v6(addr: u128) -> Seq<bool> {
    Seq::new(128, |k: int| bit_at(addr, 127 - k))
}

/// The IPv4-mapped IPv6 address `::ffff:0.0.0.0`, under whose first 96 bits
/// the trie keeps the IPv4 networks.
pub const IPV4_MAPPED_PREFIX: u128 = 0xffff_0000_0000;

/// The key that leads to the root of the IPv4 networks: the first 96 bits
/// of the IPv4-mapped prefix.
pub open spec fn key_ipv4_root() -> Seq<bool> {
    key_v6(IPV4_MAPPED_PREFIX).subrange(0, 96)
}

/// `u32::reverse_bits`. Trusted: bit `k` of the result, counted from the
/// least significant, is bit `31 - k` of the argument.
#[verifier::external_body]
pub(crate) fn reverse_bits_u32(x: u32) -> (r: u32)
    ensures
        forall|k: int| 0 <= k < 32 ==> #[trigger] bit_at(r as u128, k) == bit_at(x as u128, 31 - k),
{
    x.reverse_bits()
}

/// `u128::reverse_bits`. Trusted: bit `k` of the result, counted from the
/// least significant, is bit `127 - k` of the argument.
#[verifier::external_body]
pub(crate) fn reverse_bits_u128(x: u128) -> (r: u128)
    ensures
        forall|k: int| 0 <= k < 128 ==> #[trigger] bit_at(r, k) == bit_at(x, 127 - k),
{
    x.reverse_bits()
}

} // verus!
