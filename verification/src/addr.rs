//! IPv4 and IPv6 addresses held as plain integers, the masks that a prefix
//! length stands for, and the subnet an address belongs to.
//!
//! An address is its bits in network order: the first octet of an IPv4
//! address is the most significant byte of a `u32`, the first segment of an
//! IPv6 address the most significant sixteen bits of a `u128`.

use vstd::prelude::*;

verus! {

/// An IPv4 address.
#[derive(Clone, Copy, Debug, PartialEq, Eq, Hash, Structural)]
pub struct Ipv4Address {
    pub bits: u32,
}

/// An IPv6 address.
#[derive(Clone, Copy, Debug, PartialEq, Eq, Hash, Structural)]
pub struct Ipv6Address {
    pub bits: u128,
}

/// An address of either family.
#[derive(Clone, Copy, Debug, PartialEq, Eq, Hash, Structural)]
pub enum IpAddress {
    V4(Ipv4Address),
    V6(Ipv6Address),
}

/// The netmask of an IPv4 prefix: the `prefix_len` most significant bits set.
/// A length of 32 or more stands for the full mask.
pub open spec fn mask_v4(prefix_len: u8) -> u32 {
    if prefix_len >= 32 {
        0xffff_ffffu32
    } else {
        !(0xffff_ffffu32 >> prefix_len)
    }
}

/// The netmask of an IPv6 prefix: the `prefix_len` most significant bits set.
/// A length of 128 or more stands for the full mask.
pub open spec fn mask_v6(prefix_len: u8) -> u128 {
    if prefix_len >= 128 {
        0xffff_ffff_ffff_ffff_ffff_ffff_ffff_ffffu128
    } else {
        !(0xffff_ffff_ffff_ffff_ffff_ffff_ffff_ffffu128 >> prefix_len)
    }
}

/// The bits of the IPv4 address `a.b.c.d`.
pub open spec fn v4_bits(a: u8, b: u8, c: u8, d: u8) -> u32 {
    ((a as u32) << 24) | ((b as u32) << 16) | ((c as u32) << 8) | (d as u32)
}

/// The bits of the IPv6 address whose eight segments are `s`.
pub open spec fn v6_bits(s: [u16; 8]) -> u128 {
    ((s[0] as u128) << 112) | ((s[1] as u128) << 96) | ((s[2] as u128) << 80) | ((s[3] as u128)
        << 64) | ((s[4] as u128) << 48) | ((s[5] as u128) << 32) | ((s[6] as u128) << 16) | (
    s[7] as u128)
}

/// The netmask of an IPv4 prefix.
pub fn netmask_v4(prefix_len: u8) -> (mask: u32)
    ensures
        mask == mask_v4(prefix_len),
{
    if prefix_len >= 32 {
        0xffff_ffffu32
    } else {
        !(0xffff_ffffu32 >> prefix_len)
    }
}

/// The netmask of an IPv6 prefix.
pub fn netmask_v6(prefix_len: u8) -> (mask: u128)
    ensures
        mask == mask_v6(prefix_len),
{
    if prefix_len >= 128 {
        0xffff_ffff_ffff_ffff_ffff_ffff_ffff_ffffu128
    } else {
        !(0xffff_ffff_ffff_ffff_ffff_ffff_ffff_ffffu128 >> prefix_len)
    }
}

impl Ipv4Address {
    /// The octet at position `i`, counted from the left, for `0 <= i < 4`.
    pub open spec fn spec_octet(&self, i: int) -> u8 {
        ((self.bits >> ((24 - 8 * i) as u32)) & 0xff) as u8
    }

    /// The address masked by the prefix.
    pub open spec fn spec_subnet(&self, prefix_len: u8) -> Ipv4Address {
        Ipv4Address { bits: self.bits & mask_v4(prefix_len) }
    }

    /// Whether the address lies in the network `net/prefix_len`, where `net`
    /// is the network's own address.
    pub open spec fn spec_in_net(&self, net: u32, prefix_len: u8) -> bool {
        self.bits & mask_v4(prefix_len) == net
    }

    /// 127.0.0.0/8
    pub open spec fn spec_is_loopback(&self) -> bool {
        self.spec_in_net(0x7f00_0000, 8)
    }

    /// 0.0.0.0
    pub open spec fn spec_is_unspecified(&self) -> bool {
        self.spec_in_net(0, 32)
    }

    /// 192.0.2.0/24, 198.51.100.0/24 and 203.0.113.0/24
    pub open spec fn spec_is_documentation(&self) -> bool {
        self.spec_in_net(0xc000_0200, 24) || self.spec_in_net(0xc633_6400, 24) || self.spec_in_net(
            0xcb00_7100,
            24,
        )
    }

    /// 169.254.0.0/16
    pub open spec fn spec_is_link_local(&self) -> bool {
        self.spec_in_net(0xa9fe_0000, 16)
    }

    /// 10.0.0.0/8, 172.16.0.0/12 and 192.168.0.0/16
    pub open spec fn spec_is_private(&self) -> bool {
        self.spec_in_net(0x0a00_0000, 8) || self.spec_in_net(0xac10_0000, 12) || self.spec_in_net(
            0xc0a8_0000,
            16,
        )
    }

    /// The address `a.b.c.d`.
    pub fn new(a: u8, b: u8, c: u8, d: u8) -> (addr: Ipv4Address)
        ensures
            addr.bits == v4_bits(a, b, c, d),
    {
        Ipv4Address { bits: ((a as u32) << 24) | ((b as u32) << 16) | ((c as u32) << 8) | (d as u32) }
    }

    pub fn from_bits(bits: u32) -> (addr: Ipv4Address)
        ensures
            addr.bits == bits,
    {
        Ipv4Address { bits }
    }

    pub fn to_bits(&self) -> (bits: u32)
        ensures
            bits == self.bits,
    {
        self.bits
    }

    pub fn octet(&self, i: usize) -> (o: u8)
        requires
            i < 4,
        ensures
            o == self.spec_octet(i as int),
    {
        let bits: u32 = self.bits;
        let shift: u32 = (24 - 8 * i) as u32;
        let low: u32 = (bits >> shift) & 0xff;
        assert(low <= 0xff) by (bit_vector)
            requires
                low == (bits >> shift) & 0xff,
        ;
        low as u8
    }

    pub fn subnet(&self, prefix_len: u8) -> (net: Ipv4Address)
        ensures
            net == self.spec_subnet(prefix_len),
    {
        Ipv4Address { bits: self.bits & netmask_v4(prefix_len) }
    }

    #[verifier::when_used_as_spec(spec_in_net)]
    pub fn in_net(&self, net: u32, prefix_len: u8) -> (r: bool)
        ensures
            r == self.spec_in_net(net, prefix_len),
    {
        self.bits & netmask_v4(prefix_len) == net
    }

    #[verifier::when_used_as_spec(spec_is_loopback)]
    pub fn is_loopback(&self) -> (r: bool)
        ensures
            r == self.spec_is_loopback(),
    {
        self.in_net(0x7f00_0000, 8)
    }

    #[verifier::when_used_as_spec(spec_is_unspecified)]
    pub fn is_unspecified(&self) -> (r: bool)
        ensures
            r == self.spec_is_unspecified(),
    {
        self.in_net(0, 32)
    }

    #[verifier::when_used_as_spec(spec_is_documentation)]
    pub fn is_documentation(&self) -> (r: bool)
        ensures
            r == self.spec_is_documentation(),
    {
        self.in_net(0xc000_0200, 24) || self.in_net(0xc633_6400, 24) || self.in_net(0xcb00_7100, 24)
    }

    #[verifier::when_used_as_spec(spec_is_link_local)]
    pub fn is_link_local(&self) -> (r: bool)
        ensures
            r == self.spec_is_link_local(),
    {
        self.in_net(0xa9fe_0000, 16)
    }

    #[verifier::when_used_as_spec(spec_is_private)]
    pub fn is_private(&self) -> (r: bool)
        ensures
            r == self.spec_is_private(),
    {
        self.in_net(0x0a00_0000, 8) || self.in_net(0xac10_0000, 12) || self.in_net(0xc0a8_0000, 16)
    }
}

impl Ipv6Address {
    /// The sixteen-bit segment at position `i`, counted from the left, for
    /// `0 <= i < 8`.
    pub open spec fn spec_segment(&self, i: int) -> u16 {
        ((self.bits >> ((112 - 16 * i) as u32)) & 0xffff) as u16
    }

    /// The eight segments, from the left.
    pub open spec fn spec_segments(&self) -> Seq<u16> {
        Seq::new(8, |i: int| self.spec_segment(i))
    }

    /// The address masked by the prefix.
    pub open spec fn spec_subnet(&self, prefix_len: u8) -> Ipv6Address {
        Ipv6Address { bits: self.bits & mask_v6(prefix_len) }
    }

    /// Whether the address lies in the network `net/prefix_len`, where `net`
    /// is the network's own address.
    pub open spec fn spec_in_net(&self, net: u128, prefix_len: u8) -> bool {
        self.bits & mask_v6(prefix_len) == net
    }

    /// fe80::/10
    pub open spec fn spec_is_unicast_link_local(&self) -> bool {
        self.spec_in_net(0xfe80_0000_0000_0000_0000_0000_0000_0000, 10)
    }

    /// ff00::/8
    pub open spec fn spec_is_multicast(&self) -> bool {
        self.spec_in_net(0xff00_0000_0000_0000_0000_0000_0000_0000, 8)
    }

    /// ::ffff:0:0/96
    pub open spec fn spec_is_ipv4_mapped(&self) -> bool {
        self.spec_in_net(0x0000_0000_0000_0000_0000_ffff_0000_0000, 96)
    }

    /// ::1
    pub open spec fn spec_is_loopback(&self) -> bool {
        self.spec_in_net(1, 128)
    }

    /// ::
    pub open spec fn spec_is_unspecified(&self) -> bool {
        self.spec_in_net(0, 128)
    }

    /// 2001:db8::/32 and 3fff::/20
    pub open spec fn spec_is_documentation(&self) -> bool {
        self.spec_in_net(0x2001_0db8_0000_0000_0000_0000_0000_0000, 32) || self.spec_in_net(
            0x3fff_0000_0000_0000_0000_0000_0000_0000,
            20,
        )
    }

    /// 2001:2::/48
    pub open spec fn spec_is_benchmarking(&self) -> bool {
        self.spec_in_net(0x2001_0002_0000_0000_0000_0000_0000_0000, 48)
    }

    /// fc00::/7
    pub open spec fn spec_is_unique_local(&self) -> bool {
        self.spec_in_net(0xfc00_0000_0000_0000_0000_0000_0000_0000, 7)
    }

    /// Whether the interface identifier carries the marker of a modified
    /// EUI-64: the octets at the zero-based positions 11 and 12 are `ff` and
    /// `fe`.
    pub open spec fn spec_has_eui64_marker(&self) -> bool {
        (self.bits >> 24u32) & 0xffff == 0xfffe
    }

    /// The IPv4 address in the last 32 bits.
    pub open spec fn spec_embedded_v4(&self) -> Ipv4Address {
        Ipv4Address { bits: (self.bits & 0xffff_ffff) as u32 }
    }

    /// The address whose segments are `s`, from the left.
    pub fn new(s: [u16; 8]) -> (addr: Ipv6Address)
        ensures
            addr.bits == v6_bits(s),
    {
        Ipv6Address {
            bits: ((s[0] as u128) << 112) | ((s[1] as u128) << 96) | ((s[2] as u128) << 80) | ((
            s[3] as u128) << 64) | ((s[4] as u128) << 48) | ((s[5] as u128) << 32) | ((s[6] as u128)
                << 16) | (s[7] as u128),
        }
    }

    pub fn from_bits(bits: u128) -> (addr: Ipv6Address)
        ensures
            addr.bits == bits,
    {
        Ipv6Address { bits }
    }

    pub fn to_bits(&self) -> (bits: u128)
        ensures
            bits == self.bits,
    {
        self.bits
    }

    pub fn segment(&self, i: usize) -> (s: u16)
        requires
            i < 8,
        ensures
            s == self.spec_segment(i as int),
    {
        let bits: u128 = self.bits;
        let shift: u32 = (112 - 16 * i) as u32;
        let low: u128 = (bits >> shift) & 0xffff;
        assert(low <= 0xffff) by (bit_vector)
            requires
                low == (bits >> shift) & 0xffff,
        ;
        low as u16
    }

    pub fn segments(&self) -> (s: [u16; 8])
        ensures
            s@ == self.spec_segments(),
    {
        let s = [
            self.segment(0),
            self.segment(1),
            self.segment(2),
            self.segment(3),
            self.segment(4),
            self.segment(5),
            self.segment(6),
            self.segment(7),
        ];
        assert(s@ =~= self.spec_segments());
        s
    }

    pub fn embedded_v4(&self) -> (v4: Ipv4Address)
        ensures
            v4 == self.spec_embedded_v4(),
    {
        let bits: u128 = self.bits;
        let low: u128 = bits & 0xffff_ffff;
        assert(low <= 0xffff_ffff) by (bit_vector)
            requires
                low == bits & 0xffff_ffff,
        ;
        Ipv4Address { bits: low as u32 }
    }

    pub fn subnet(&self, prefix_len: u8) -> (net: Ipv6Address)
        ensures
            net == self.spec_subnet(prefix_len),
    {
        Ipv6Address { bits: self.bits & netmask_v6(prefix_len) }
    }

    #[verifier::when_used_as_spec(spec_in_net)]
    pub fn in_net(&self, net: u128, prefix_len: u8) -> (r: bool)
        ensures
            r == self.spec_in_net(net, prefix_len),
    {
        self.bits & netmask_v6(prefix_len) == net
    }

    #[verifier::when_used_as_spec(spec_is_unicast_link_local)]
    pub fn is_unicast_link_local(&self) -> (r: bool)
        ensures
            r == self.spec_is_unicast_link_local(),
    {
        self.in_net(0xfe80_0000_0000_0000_0000_0000_0000_0000, 10)
    }

    #[verifier::when_used_as_spec(spec_is_multicast)]
    pub fn is_multicast(&self) -> (r: bool)
        ensures
            r == self.spec_is_multicast(),
    {
        self.in_net(0xff00_0000_0000_0000_0000_0000_0000_0000, 8)
    }

    #[verifier::when_used_as_spec(spec_is_ipv4_mapped)]
    pub fn is_ipv4_mapped(&self) -> (r: bool)
        ensures
            r == self.spec_is_ipv4_mapped(),
    {
        self.in_net(0x0000_0000_0000_0000_0000_ffff_0000_0000, 96)
    }

    #[verifier::when_used_as_spec(spec_is_loopback)]
    pub fn is_loopback(&self) -> (r: bool)
        ensures
            r == self.spec_is_loopback(),
    {
        self.in_net(1, 128)
    }

    #[verifier::when_used_as_spec(spec_is_unspecified)]
    pub fn is_unspecified(&self) -> (r: bool)
        ensures
            r == self.spec_is_unspecified(),
    {
        self.in_net(0, 128)
    }

    #[verifier::when_used_as_spec(spec_is_documentation)]
    pub fn is_documentation(&self) -> (r: bool)
        ensures
            r == self.spec_is_documentation(),
    {
        self.in_net(0x2001_0db8_0000_0000_0000_0000_0000_0000, 32) || self.in_net(
            0x3fff_0000_0000_0000_0000_0000_0000_0000,
            20,
        )
    }

    #[verifier::when_used_as_spec(spec_is_benchmarking)]
    pub fn is_benchmarking(&self) -> (r: bool)
        ensures
            r == self.spec_is_benchmarking(),
    {
        self.in_net(0x2001_0002_0000_0000_0000_0000_0000_0000, 48)
    }

    #[verifier::when_used_as_spec(spec_is_unique_local)]
    pub fn is_unique_local(&self) -> (r: bool)
        ensures
            r == self.spec_is_unique_local(),
    {
        self.in_net(0xfc00_0000_0000_0000_0000_0000_0000_0000, 7)
    }

    #[verifier::when_used_as_spec(spec_has_eui64_marker)]
    pub fn has_eui64_marker(&self) -> (r: bool)
        ensures
            r == self.spec_has_eui64_marker(),
    {
        (self.bits >> 24u32) & 0xffff == 0xfffe
    }
}

impl IpAddress {
    /// The address masked by the prefix, in its own family.
    pub open spec fn spec_subnet(&self, prefix_len: u8) -> IpAddress {
        match self {
            IpAddress::V4(a) => IpAddress::V4(a.spec_subnet(prefix_len)),
            IpAddress::V6(a) => IpAddress::V6(a.spec_subnet(prefix_len)),
        }
    }

    pub open spec fn spec_is_v4(&self) -> bool {
        self is V4
    }

    #[verifier::when_used_as_spec(spec_is_v4)]
    pub fn is_v4(&self) -> (r: bool)
        ensures
            r == (self is V4),
    {
        match self {
            IpAddress::V4(_) => true,
            IpAddress::V6(_) => false,
        }
    }
}

/// The network address of `ip` under a prefix of `prefix_len` bits: the
/// address with its host bits cleared.
pub fn get_subnet_addr(ip: &IpAddress, prefix_len: u8) -> (net: IpAddress)
    ensures
        net == ip.spec_subnet(prefix_len),
{
    match ip {
        IpAddress::V6(ip6) => IpAddress::V6(ip6.subnet(prefix_len)),
        IpAddress::V4(ip4) => IpAddress::V4(ip4.subnet(prefix_len)),
    }
}

/// Masking twice by the same prefix changes nothing: a subnet address is
/// its own subnet address.
pub proof fn lemma_subnet_idempotent(ip: IpAddress, prefix_len: u8)
    ensures
        ip.spec_subnet(prefix_len).spec_subnet(prefix_len) == ip.spec_subnet(prefix_len),
{
    match ip {
        IpAddress::V4(a) => {
            let m = mask_v4(prefix_len);
            let b = a.bits;
            assert((b & m) & m == b & m) by (bit_vector);
        },
        IpAddress::V6(a) => {
            let m = mask_v6(prefix_len);
            let b = a.bits;
            assert((b & m) & m == b & m) by (bit_vector);
        },
    }
}

/// An address lies in the network that its subnet address and prefix name.
pub proof fn lemma_address_in_own_subnet(ip: IpAddress, prefix_len: u8)
    ensures
        match ip {
            IpAddress::V4(a) => a.spec_in_net(a.spec_subnet(prefix_len).bits, prefix_len),
            IpAddress::V6(a) => a.spec_in_net(a.spec_subnet(prefix_len).bits, prefix_len),
        },
{
}

/// The full mask keeps every bit and the empty mask none.
pub proof fn lemma_mask_bounds()
    ensures
        mask_v4(0) == 0,
        mask_v4(32) == 0xffff_ffffu32,
        mask_v6(0) == 0,
        mask_v6(128) == 0xffff_ffff_ffff_ffff_ffff_ffff_ffff_ffffu128,
        forall|a: Ipv4Address| #[trigger] a.spec_subnet(32) == a,
        forall|a: Ipv6Address| #[trigger] a.spec_subnet(128) == a,
        forall|a: Ipv4Address| (#[trigger] a.spec_subnet(0)).bits == 0,
        forall|a: Ipv6Address| (#[trigger] a.spec_subnet(0)).bits == 0,
{
    assert(!(0xffff_ffffu32 >> 0u8) == 0u32) by (bit_vector);
    assert(!(0xffff_ffff_ffff_ffff_ffff_ffff_ffff_ffffu128 >> 0u8) == 0u128) by (bit_vector);
    assert forall|a: Ipv4Address| #[trigger] a.spec_subnet(32) == a by {
        let b = a.bits;
        assert(b & 0xffff_ffffu32 == b) by (bit_vector);
    }
    assert forall|a: Ipv6Address| #[trigger] a.spec_subnet(128) == a by {
        let b = a.bits;
        assert(b & 0xffff_ffff_ffff_ffff_ffff_ffff_ffff_ffffu128 == b) by (bit_vector);
    }
    assert forall|a: Ipv4Address| (#[trigger] a.spec_subnet(0)).bits == 0 by {
        let b = a.bits;
        assert(b & 0u32 == 0u32) by (bit_vector);
    }
    assert forall|a: Ipv6Address| (#[trigger] a.spec_subnet(0)).bits == 0 by {
        let b = a.bits;
        assert(b & 0u128 == 0u128) by (bit_vector);
    }
}

/// The octets that `Ipv4Address::new` was given are the octets of the
/// address it made.
pub proof fn lemma_v4_octets_of_new(a: u8, b: u8, c: u8, d: u8)
    ensures
        (Ipv4Address { bits: v4_bits(a, b, c, d) }).spec_octet(0) == a,
        (Ipv4Address { bits: v4_bits(a, b, c, d) }).spec_octet(1) == b,
        (Ipv4Address { bits: v4_bits(a, b, c, d) }).spec_octet(2) == c,
        (Ipv4Address { bits: v4_bits(a, b, c, d) }).spec_octet(3) == d,
{
    let x = v4_bits(a, b, c, d);
    assert(((x >> 24u32) & 0xff) as u8 == a && ((x >> 16u32) & 0xff) as u8 == b && ((x >> 8u32)
        & 0xff) as u8 == c && ((x >> 0u32) & 0xff) as u8 == d) by (bit_vector)
        requires
            x == ((a as u32) << 24) | ((b as u32) << 16) | ((c as u32) << 8) | (d as u32),
    ;
}

} // verus!
