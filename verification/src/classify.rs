//! Scoring of one address: the metric by which candidate addresses are
//! ranked, and the filter on interface names.
//!
//! A metric of zero keeps an address out of the selection.

use crate::addr::{Ipv4Address, Ipv6Address};
use vstd::prelude::*;
use vstd::string::*;

verus! {

/// Whether `pattern` excludes the interface: it is the name with a `-` in
/// front.
pub open spec fn pattern_excludes(pattern: Seq<char>, ifname: Seq<char>) -> bool {
    pattern == seq!['-'] + ifname
}

/// Whether `pattern` includes the interface: it is the name itself, or the
/// wildcard `*`.
pub open spec fn pattern_includes(pattern: Seq<char>, ifname: Seq<char>) -> bool {
    pattern == ifname || pattern == seq!['*']
}

/// Whether the pattern list lets the interface through: some pattern
/// includes it and no pattern before that one excludes it.
pub open spec fn spec_match_iface_pattern(ifname: Seq<char>, patterns: Seq<Seq<char>>) -> bool {
    exists|i: int|
        0 <= i < patterns.len() && pattern_includes(#[trigger] patterns[i], ifname) && forall|
            j: int,
        |
            0 <= j < i ==> !pattern_excludes(#[trigger] patterns[j], ifname)
}

/// The bonus for the kind of link that the interface name tells of: 2 for
/// wired Ethernet (`en…`), 1 for wireless (`wl…`), else 0.
pub open spec fn spec_iface_bonus(iface: Seq<char>) -> u8 {
    if seq!['e', 'n'].is_prefix_of(iface) {
        2
    } else if seq!['w', 'l'].is_prefix_of(iface) {
        1
    } else {
        0
    }
}

/// The bonus for the flags of an address. Reserved: it is always 0.
pub open spec fn spec_flag_bonus(flags: u32) -> u8 {
    0
}

/// The score of a candidate on top of `base`.
pub open spec fn with_bonus(base: u8, iface: Seq<char>, flags: u32) -> u8 {
    (base + spec_flag_bonus(flags) + spec_iface_bonus(iface)) as u8
}

/// The metric of an IPv6 address.
pub open spec fn spec_v6_metric(ip: Ipv6Address, iface: Seq<char>, flags: u32, accept_ula: bool) -> u8 {
    if ip.spec_is_unicast_link_local() || ip.spec_is_multicast() {
        0
    } else if ip.spec_is_ipv4_mapped() {
        0
    } else if ip.spec_is_loopback() || ip.spec_is_unspecified() {
        0
    } else if ip.spec_is_documentation() {
        0
    } else if ip.spec_is_benchmarking() {
        0
    } else if ip.spec_is_unique_local() {
        if accept_ula {
            with_bonus(2, iface, flags)
        } else {
            0
        }
    } else if ip.spec_has_eui64_marker() {
        with_bonus(10, iface, flags)
    } else {
        with_bonus(8, iface, flags)
    }
}

/// The metric of an IPv4 address.
pub open spec fn spec_v4_metric(
    ip: Ipv4Address,
    iface: Seq<char>,
    flags: u32,
    accept_private: bool,
) -> u8 {
    if ip.spec_is_loopback() || ip.spec_is_unspecified() {
        0
    } else if ip.spec_is_documentation() {
        0
    } else if ip.spec_is_link_local() {
        0
    } else if ip.spec_is_private() {
        if accept_private {
            with_bonus(2, iface, flags)
        } else {
            0
        }
    } else {
        with_bonus(8, iface, flags)
    }
}

/// Tries the patterns in their order; the first that names the interface
/// decides. No pattern naming it, the interface is left out.
pub fn match_iface_pattern(ifname: &str, pattern_list: &Vec<String>) -> (matched: bool)
    ensures
        matched == spec_match_iface_pattern(ifname@, crate::config::texts(pattern_list@)),
{
    let ghost patterns = crate::config::texts(pattern_list@);
    let name = String::from_str(ifname);
    let mut negative = String::from_str("-");
    negative.append(ifname);
    let star = String::from_str("*");
    proof {
        reveal_strlit("-");
        reveal_strlit("*");
        assert("-"@ =~= seq!['-']);
        assert("*"@ =~= seq!['*']);
    }
    let mut i: usize = 0;
    while i < pattern_list.len()
        invariant
            i <= pattern_list.len(),
            patterns == crate::config::texts(pattern_list@),
            name@ == ifname@,
            negative@ == seq!['-'] + ifname@,
            star@ == seq!['*'],
            forall|j: int|
                0 <= j < i ==> !pattern_excludes(#[trigger] patterns[j], ifname@)
                    && !pattern_includes(patterns[j], ifname@),
        decreases pattern_list.len() - i,
    {
        let ptr = &pattern_list[i];
        assert(patterns[i as int] == ptr@);
        if *ptr == negative {
            proof {
                assert(pattern_excludes(patterns[i as int], ifname@));
                assert(negative@.len() == ifname@.len() + 1);
                assert(negative@[0] == '-');
                assert(!pattern_includes(patterns[i as int], ifname@));
            }
            return false;
        }
        if *ptr == name {
            return true;
        }
        if *ptr == star {
            return true;
        }
        i += 1;
    }
    false
}

/// The bonus for the kind of link that the interface name tells of.
pub fn iface_bonus(iface: &str) -> (bonus: u8)
    ensures
        bonus == spec_iface_bonus(iface@),
{
    let n = iface.unicode_len();
    if n < 2 {
        return 0;
    }
    let c0 = iface.get_char(0);
    let c1 = iface.get_char(1);
    proof {
        let head = iface@.subrange(0, 2);
        assert(head[0] == c0 && head[1] == c1);
        if c0 == 'e' && c1 == 'n' {
            assert(head =~= seq!['e', 'n']);
        }
        if c0 == 'w' && c1 == 'l' {
            assert(head =~= seq!['w', 'l']);
        }
        assert(seq!['e', 'n'][0] == 'e' && seq!['e', 'n'][1] == 'n');
        assert(seq!['w', 'l'][0] == 'w' && seq!['w', 'l'][1] == 'l');
    }
    if c0 == 'e' && c1 == 'n' {
        2
    } else if c0 == 'w' && c1 == 'l' {
        1
    } else {
        0
    }
}

/// The bonus for the flags of an address.
pub fn flag_bonus(flags: u32) -> (bonus: u8)
    ensures
        bonus == spec_flag_bonus(flags),
{
    0
}

/// The metric of an IPv6 address on the interface `iface`.
pub fn compute_v6_metric(ipaddr: &Ipv6Address, iface: &str, flags: u32, accept_ula: bool) -> (metric:
    u8)
    ensures
        metric == spec_v6_metric(*ipaddr, iface@, flags, accept_ula),
{
    if ipaddr.is_unicast_link_local() || ipaddr.is_multicast() {
        0
    } else if ipaddr.is_ipv4_mapped() {
        0
    } else if ipaddr.is_loopback() || ipaddr.is_unspecified() {
        0
    } else if ipaddr.is_documentation() {
        0
    } else if ipaddr.is_benchmarking() {
        0
    } else if ipaddr.is_unique_local() {
        if accept_ula {
            2 + flag_bonus(flags) + iface_bonus(iface)
        } else {
            0
        }
    } else if ipaddr.has_eui64_marker() {
        10 + flag_bonus(flags) + iface_bonus(iface)
    } else {
        8 + flag_bonus(flags) + iface_bonus(iface)
    }
}

/// The metric of an IPv4 address on the interface `iface`.
pub fn compute_v4_metric(ipaddr: &Ipv4Address, iface: &str, flags: u32, accept_private: bool) -> (metric:
    u8)
    ensures
        metric == spec_v4_metric(*ipaddr, iface@, flags, accept_private),
{
    if ipaddr.is_loopback() || ipaddr.is_unspecified() {
        0
    } else if ipaddr.is_documentation() {
        0
    } else if ipaddr.is_link_local() {
        0
    } else if ipaddr.is_private() {
        if accept_private {
            2 + flag_bonus(flags) + iface_bonus(iface)
        } else {
            0
        }
    } else {
        8 + flag_bonus(flags) + iface_bonus(iface)
    }
}

/// Loopback, unspecified and documentation addresses score zero on every
/// interface and under every policy.
pub proof fn lemma_reserved_v4_scores_zero(
    ip: Ipv4Address,
    iface: Seq<char>,
    flags: u32,
    accept_private: bool,
)
    requires
        ip.spec_is_loopback() || ip.spec_is_unspecified() || ip.spec_is_documentation(),
    ensures
        spec_v4_metric(ip, iface, flags, accept_private) == 0,
{
}

/// Loopback, unspecified and documentation addresses score zero on every
/// interface and under every policy.
pub proof fn lemma_reserved_v6_scores_zero(
    ip: Ipv6Address,
    iface: Seq<char>,
    flags: u32,
    accept_ula: bool,
)
    requires
        ip.spec_is_loopback() || ip.spec_is_unspecified() || ip.spec_is_documentation(),
    ensures
        spec_v6_metric(ip, iface, flags, accept_ula) == 0,
{
}

/// A metric is zero or one of the bases 2, 8 and 10 with a bonus of at most
/// 2: an IPv4 metric never exceeds 10, an IPv6 metric never exceeds 12.
pub proof fn lemma_metric_range(
    v4: Ipv4Address,
    v6: Ipv6Address,
    iface: Seq<char>,
    flags: u32,
    accept: bool,
)
    ensures
        spec_v4_metric(v4, iface, flags, accept) <= 10,
        spec_v6_metric(v6, iface, flags, accept) <= 12,
        spec_v4_metric(v4, iface, flags, accept) == 0 || spec_v4_metric(v4, iface, flags, accept)
            >= 2,
        spec_v6_metric(v6, iface, flags, accept) == 0 || spec_v6_metric(v6, iface, flags, accept)
            >= 2,
{
}

/// A private or unique-local address scores only where the policy accepts
/// it.
pub proof fn lemma_private_needs_policy(v4: Ipv4Address, v6: Ipv6Address, iface: Seq<char>, flags: u32)
    requires
        v4.spec_is_private(),
        v6.spec_is_unique_local(),
    ensures
        spec_v4_metric(v4, iface, flags, false) == 0,
        spec_v6_metric(v6, iface, flags, false) == 0,
{
}

/// A wildcard in front lets every interface through, whatever follows it.
pub proof fn lemma_wildcard_first(ifname: Seq<char>, patterns: Seq<Seq<char>>)
    requires
        patterns.len() > 0,
        patterns[0] == seq!['*'],
    ensures
        spec_match_iface_pattern(ifname, patterns),
{
    assert(pattern_includes(patterns[0], ifname));
}

/// An exclusion keeps the interface out if no pattern before it includes
/// the interface.
pub proof fn lemma_exclusion_before_inclusion(ifname: Seq<char>, patterns: Seq<Seq<char>>, k: int)
    requires
        0 <= k < patterns.len(),
        pattern_excludes(patterns[k], ifname),
        forall|j: int| 0 <= j < k ==> !pattern_includes(#[trigger] patterns[j], ifname),
    ensures
        !spec_match_iface_pattern(ifname, patterns),
{
    assert(seq!['-'] + ifname != ifname) by {
        assert((seq!['-'] + ifname).len() == ifname.len() + 1);
    }
    assert((seq!['-'] + ifname)[0] == '-');
    assert(seq!['*'][0] == '*');
    assert(!pattern_includes(patterns[k], ifname));
}

/// An empty pattern list lets no interface through.
pub proof fn lemma_no_pattern_no_match(ifname: Seq<char>)
    ensures
        !spec_match_iface_pattern(ifname, Seq::empty()),
{
}

} // verus!
