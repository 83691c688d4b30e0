//! Selection of the address to report, for each family on its own: the
//! address with the greatest metric, if any metric is above zero.
//!
//! The snapshot is scanned in its order and an address replaces the one
//! retained so far only where its metric is strictly greater, so of several
//! addresses with the greatest metric the first in the scan order is selected.

use crate::addr::{IpAddress, Ipv4Address, Ipv6Address};
use crate::config::Config;
use crate::snapshot::{Entry, Snapshot};
use vstd::prelude::*;

verus! {

/// Whether the address is of the family asked for: IPv6 where `v6` holds,
/// else IPv4.
pub open spec fn in_family(ip: IpAddress, v6: bool) -> bool {
    (ip is V6) == v6
}

/// The metric that an entry must exceed to replace the entry retained at
/// `retained`: that entry's metric, or zero where none is retained.
pub open spec fn threshold(entries: Seq<Entry>, retained: Option<int>) -> u8 {
    match retained {
        Some(i) => entries[i].1.metric,
        None => 0,
    }
}

/// The position that the scan of `entries` retains for a family.
pub open spec fn best_index(entries: Seq<Entry>, v6: bool) -> Option<int>
    decreases entries.len(),
{
    if entries.len() == 0 {
        None
    } else {
        let before = best_index(entries.drop_last(), v6);
        if in_family(entries.last().0.addr, v6) && entries.last().1.metric > threshold(
            entries.drop_last(),
            before,
        ) {
            Some(entries.len() - 1)
        } else {
            before
        }
    }
}

/// The IPv6 address to report, where IPv6 is enabled.
pub open spec fn spec_best_v6(entries: Seq<Entry>, enabled: bool) -> Option<Ipv6Address> {
    if !enabled {
        None
    } else {
        match best_index(entries, true) {
            Some(i) => match entries[i].0.addr {
                IpAddress::V6(ip6) => Some(ip6),
                IpAddress::V4(_) => None,
            },
            None => None,
        }
    }
}

/// The IPv4 address to report, where IPv4 is enabled.
pub open spec fn spec_best_v4(entries: Seq<Entry>, enabled: bool) -> Option<Ipv4Address> {
    if !enabled {
        None
    } else {
        match best_index(entries, false) {
            Some(i) => match entries[i].0.addr {
                IpAddress::V4(ip4) => Some(ip4),
                IpAddress::V6(_) => None,
            },
            None => None,
        }
    }
}

/// What the scan retains: nothing where no address of the family scores
/// above zero; else the first address, in the scan order, among those of the
/// family with the greatest metric.
pub proof fn lemma_best_index(entries: Seq<Entry>, v6: bool)
    ensures
        match best_index(entries, v6) {
            Some(i) => {
                &&& 0 <= i < entries.len()
                &&& in_family(entries[i].0.addr, v6)
                &&& entries[i].1.metric > 0
                &&& forall|j: int|
                    0 <= j < entries.len() && in_family((#[trigger] entries[j]).0.addr, v6)
                        ==> entries[j].1.metric <= entries[i].1.metric
                &&& forall|j: int|
                    0 <= j < i && in_family((#[trigger] entries[j]).0.addr, v6)
                        ==> entries[j].1.metric < entries[i].1.metric
            },
            None => forall|j: int|
                0 <= j < entries.len() && in_family((#[trigger] entries[j]).0.addr, v6)
                    ==> entries[j].1.metric == 0,
        },
    decreases entries.len(),
{
    if entries.len() > 0 {
        let head = entries.drop_last();
        lemma_best_index(head, v6);
        assert forall|j: int| 0 <= j < head.len() implies head[j] == entries[j] by {}
    }
}

/// A family in which no address scores above zero has no selection.
pub proof fn lemma_nothing_scores_nothing_selected(entries: Seq<Entry>, enabled: bool)
    ensures
        (forall|j: int|
            0 <= j < entries.len() && in_family((#[trigger] entries[j]).0.addr, true)
                ==> entries[j].1.metric == 0) ==> spec_best_v6(entries, enabled) is None,
        (forall|j: int|
            0 <= j < entries.len() && in_family((#[trigger] entries[j]).0.addr, false)
                ==> entries[j].1.metric == 0) ==> spec_best_v4(entries, enabled) is None,
{
    lemma_best_index(entries, true);
    lemma_best_index(entries, false);
    if enabled {
        match best_index(entries, true) {
            Some(i) => {
                assert(in_family(entries[i].0.addr, true));
            },
            None => {},
        }
        match best_index(entries, false) {
            Some(i) => {
                assert(in_family(entries[i].0.addr, false));
            },
            None => {},
        }
    }
}

/// Where exactly one address of a family scores above zero, that address
/// is the selection of the family, if the family is enabled.
pub proof fn lemma_single_scoring_address_selected(entries: Seq<Entry>, i: int)
    requires
        0 <= i < entries.len(),
        entries[i].1.metric > 0,
        forall|j: int|
            0 <= j < entries.len() && j != i && in_family(
                (#[trigger] entries[j]).0.addr,
                entries[i].0.addr is V6,
            ) ==> entries[j].1.metric == 0,
    ensures
        entries[i].0.addr matches IpAddress::V6(ip6) ==> spec_best_v6(entries, true) == Some(ip6),
        entries[i].0.addr matches IpAddress::V4(ip4) ==> spec_best_v4(entries, true) == Some(ip4),
{
    let v6 = entries[i].0.addr is V6;
    lemma_best_index(entries, v6);
    assert(in_family(entries[i].0.addr, v6));
    match best_index(entries, v6) {
        Some(k) => {
            assert(in_family(entries[k].0.addr, v6));
            if k != i {
                assert(entries[k].1.metric == 0);
            }
        },
        None => {
            assert(entries[i].1.metric == 0);
        },
    }
}

/// A family that is not enabled has no selection.
pub proof fn lemma_disabled_family_not_selected(entries: Seq<Entry>)
    ensures
        spec_best_v6(entries, false) is None,
        spec_best_v4(entries, false) is None,
{
}

/// Selects the address to report for each family: first the IPv6 address,
/// then the IPv4 address.
pub fn select_best(iface_addrs_map: &Snapshot, conf: &Config) -> (best: (
    Option<Ipv6Address>,
    Option<Ipv4Address>,
))
    ensures
        best.0 == spec_best_v6(iface_addrs_map@, conf.enable_ipv6),
        best.1 == spec_best_v4(iface_addrs_map@, conf.enable_ipv4),
{
    let ghost entries = iface_addrs_map@;
    let mut best6: Option<Ipv6Address> = None;
    let mut best4: Option<Ipv4Address> = None;
    let mut metric6: u8 = 0;
    let mut metric4: u8 = 0;
    let n = iface_addrs_map.len();
    let mut i: usize = 0;
    assert(entries.subrange(0, 0) =~= Seq::<Entry>::empty());
    while i < n
        invariant
            i <= n,
            n == entries.len(),
            entries == iface_addrs_map@,
            conf.enable_ipv6 ==> metric6 == threshold(
                entries.subrange(0, i as int),
                best_index(entries.subrange(0, i as int), true),
            ),
            conf.enable_ipv4 ==> metric4 == threshold(
                entries.subrange(0, i as int),
                best_index(entries.subrange(0, i as int), false),
            ),
            best6 == spec_best_v6(entries.subrange(0, i as int), conf.enable_ipv6),
            best4 == spec_best_v4(entries.subrange(0, i as int), conf.enable_ipv4),
        decreases n - i,
    {
        proof {
            let upto = entries.subrange(0, i + 1);
            let head = entries.subrange(0, i as int);
            assert(upto.drop_last() =~= head);
            assert(upto.last() == entries[i as int]);
            lemma_best_index(head, true);
            lemma_best_index(head, false);
            assert forall|j: int| 0 <= j < head.len() implies head[j] == upto[j] by {}
        }
        match iface_addrs_map.entry(i) {
            Some((ip, ipdata)) => {
                match ip.addr {
                    IpAddress::V6(ip6) => {
                        if conf.enable_ipv6 && ipdata.metric > metric6 {
                            best6 = Some(ip6);
                            metric6 = ipdata.metric;
                        }
                    },
                    IpAddress::V4(ip4) => {
                        if conf.enable_ipv4 && ipdata.metric > metric4 {
                            best4 = Some(ip4);
                            metric4 = ipdata.metric;
                        }
                    },
                }
            },
            None => {},
        }
        i += 1;
    }
    assert(entries.subrange(0, i as int) =~= entries);
    (best6, best4)
}

} // verus!
