//! The firewall address sets: the subnets of a snapshot, written as two
//! named sets, one for each family.
//!
//! ```text
//! define LOCAL_NET4={
//! <addr>/<prefixlen>,
//! <addr>/<prefixlen>
//! }
//! define LOCAL_NET6={
//! <addr>/<prefixlen>
//! }
//! ```
//!
//! A set holds each pair of subnet and prefix length once, in the order in
//! which the snapshot first gives it.

use crate::addr::IpAddress;
use crate::select::in_family;
use crate::snapshot::{Entry, Snapshot};
use crate::text::{cidr_text, push_cidr_text};
use vstd::prelude::*;
use vstd::string::*;

verus! {

/// A subnet address and its prefix length.
pub type Net = (IpAddress, u8);

/// The network of an entry: the subnet of its address and the prefix length.
pub open spec fn entry_net(e: Entry) -> Net {
    (e.1.subnet_addr, e.0.prefix_len)
}

/// The networks of one family, each once, in the order in which the entries
/// first give them.
pub open spec fn family_nets(entries: Seq<Entry>, v6: bool) -> Seq<Net>
    decreases entries.len(),
{
    if entries.len() == 0 {
        Seq::empty()
    } else {
        let before = family_nets(entries.drop_last(), v6);
        let net = entry_net(entries.last());
        if in_family(net.0, v6) && !before.contains(net) {
            before.push(net)
        } else {
            before
        }
    }
}

/// The networks as lines: each as address, slash and prefix length, with a
/// comma and a line break between two of them.
pub open spec fn net_lines(nets: Seq<Net>) -> Seq<char>
    decreases nets.len(),
{
    if nets.len() == 0 {
        Seq::empty()
    } else if nets.len() == 1 {
        cidr_text(nets[0].0, nets[0].1)
    } else {
        net_lines(nets.drop_last()) + seq![',', '\n'] + cidr_text(nets.last().0, nets.last().1)
    }
}

/// The text of both sets, IPv4 first.
pub open spec fn nft_sets_text(entries: Seq<Entry>) -> Seq<char> {
    "define LOCAL_NET4={\n"@ + net_lines(family_nets(entries, false)) + "\n}\n"@
        + "define LOCAL_NET6={\n"@ + net_lines(family_nets(entries, true)) + "\n}\n"@
}

/// A set holds no network twice.
pub proof fn lemma_nets_distinct(entries: Seq<Entry>, v6: bool)
    ensures
        family_nets(entries, v6).no_duplicates(),
    decreases entries.len(),
{
    if entries.len() > 0 {
        lemma_nets_distinct(entries.drop_last(), v6);
    }
}

/// A set holds the networks of the entries of its family, and no others.
pub proof fn lemma_nets_complete(entries: Seq<Entry>, v6: bool)
    ensures
        forall|net: Net| #[trigger]
            family_nets(entries, v6).contains(net) <==> in_family(net.0, v6) && exists|i: int|
                0 <= i < entries.len() && entry_net(#[trigger] entries[i]) == net,
    decreases entries.len(),
{
    if entries.len() > 0 {
        let head = entries.drop_last();
        lemma_nets_complete(head, v6);
        let before = family_nets(head, v6);
        let after = family_nets(entries, v6);
        let last_net = entry_net(entries.last());
        assert forall|net: Net| #[trigger]
            after.contains(net) <==> in_family(net.0, v6) && exists|i: int|
                0 <= i < entries.len() && entry_net(#[trigger] entries[i]) == net by {
            if after.contains(net) {
                let k = choose|k: int| 0 <= k < after.len() && after[k] == net;
                if k < before.len() {
                    assert(before[k] == net);
                    assert(before.contains(net));
                    let i = choose|i: int|
                        0 <= i < head.len() && entry_net(#[trigger] head[i]) == net;
                    assert(entry_net(entries[i]) == net);
                } else {
                    assert(net == last_net);
                    assert(entry_net(entries[entries.len() - 1]) == net);
                }
            }
            if in_family(net.0, v6) && exists|i: int|
                0 <= i < entries.len() && entry_net(#[trigger] entries[i]) == net {
                let i = choose|i: int|
                    0 <= i < entries.len() && entry_net(#[trigger] entries[i]) == net;
                if i < head.len() {
                    assert(entry_net(head[i]) == net);
                    assert(before.contains(net));
                    let k = choose|k: int| 0 <= k < before.len() && before[k] == net;
                    assert(after[k] == net);
                } else {
                    if before.contains(net) {
                        let k = choose|k: int| 0 <= k < before.len() && before[k] == net;
                        assert(after[k] == net);
                    } else {
                        assert(after[after.len() - 1] == net);
                    }
                }
            }
        }
    }
}

/// Two addresses of a family with the same subnet and the same prefix
/// length make one network of the set.
pub proof fn lemma_same_net_written_once(a: Entry, b: Entry, v6: bool)
    requires
        in_family(entry_net(a).0, v6),
        entry_net(a) == entry_net(b),
    ensures
        family_nets(seq![a, b], v6) == seq![entry_net(a)],
{
    reveal_with_fuel(family_nets, 3);
    let both = seq![a, b];
    assert(both.drop_last() =~= seq![a]);
    assert(seq![a].drop_last() =~= Seq::<Entry>::empty());
    assert(family_nets(seq![a], v6) =~= seq![entry_net(a)]);
    assert(seq![entry_net(a)][0] == entry_net(b));
    assert(family_nets(both, v6) =~= seq![entry_net(a)]);
}

/// Two addresses of a family with the same subnet and different prefix
/// lengths make two networks of the set.
pub proof fn lemma_other_prefix_written_too(a: Entry, b: Entry, v6: bool)
    requires
        in_family(entry_net(a).0, v6),
        entry_net(a).0 == entry_net(b).0,
        entry_net(a).1 != entry_net(b).1,
    ensures
        family_nets(seq![a, b], v6) == seq![entry_net(a), entry_net(b)],
{
    reveal_with_fuel(family_nets, 3);
    let both = seq![a, b];
    assert(both.drop_last() =~= seq![a]);
    assert(seq![a].drop_last() =~= Seq::<Entry>::empty());
    assert(family_nets(seq![a], v6) =~= seq![entry_net(a)]);
    assert(family_nets(both, v6) =~= seq![entry_net(a), entry_net(b)]);
}

fn contains_net(nets: &Vec<Net>, net: &Net) -> (found: bool)
    ensures
        found == nets@.contains(*net),
{
    let mut i: usize = 0;
    while i < nets.len()
        invariant
            i <= nets@.len(),
            forall|j: int| 0 <= j < i ==> nets@[j] != *net,
        decreases nets.len() - i,
    {
        if nets[i].0 == net.0 && nets[i].1 == net.1 {
            assert(nets@[i as int] == *net);
            return true;
        }
        i += 1;
    }
    false
}

/// The networks of one family that the set of the family holds.
pub fn firewall_nets(state: &Snapshot, v6: bool) -> (nets: Vec<Net>)
    ensures
        nets@ == family_nets(state@, v6),
{
    let ghost entries = state@;
    let mut nets: Vec<Net> = Vec::new();
    let n = state.len();
    let mut i: usize = 0;
    assert(entries.subrange(0, 0) =~= Seq::<Entry>::empty());
    while i < n
        invariant
            i <= n,
            n == entries.len(),
            entries == state@,
            nets@ == family_nets(entries.subrange(0, i as int), v6),
        decreases n - i,
    {
        proof {
            let upto = entries.subrange(0, i + 1);
            assert(upto.drop_last() =~= entries.subrange(0, i as int));
            assert(upto.last() == entries[i as int]);
        }
        match state.entry(i) {
            Some((ip, ipdata)) => {
                let net: Net = (ipdata.subnet_addr, ip.prefix_len);
                let of_family = match ipdata.subnet_addr {
                    IpAddress::V6(_) => v6,
                    IpAddress::V4(_) => !v6,
                };
                if of_family && !contains_net(&nets, &net) {
                    nets.push(net);
                }
            },
            None => {},
        }
        i += 1;
    }
    assert(entries.subrange(0, i as int) =~= entries);
    nets
}

/// Appends the networks as lines.
pub fn push_net_lines(out: &mut String, nets: &Vec<Net>)
    ensures
        final(out)@ == old(out)@ + net_lines(nets@),
{
    let mut i: usize = 0;
    assert(nets@.subrange(0, 0) =~= Seq::<Net>::empty());
    assert(out@ =~= old(out)@ + net_lines(nets@.subrange(0, 0)));
    while i < nets.len()
        invariant
            i <= nets@.len(),
            out@ == old(out)@ + net_lines(nets@.subrange(0, i as int)),
        decreases nets.len() - i,
    {
        if i > 0 {
            out.push(',');
            out.push('\n');
        }
        push_cidr_text(out, &nets[i].0, nets[i].1);
        proof {
            let upto = nets@.subrange(0, i + 1);
            assert(upto.drop_last() =~= nets@.subrange(0, i as int));
            assert(upto.last() == nets@[i as int]);
            assert(out@ =~= old(out)@ + net_lines(upto));
        }
        i += 1;
    }
    assert(nets@.subrange(0, i as int) =~= nets@);
}

/// The text of the firewall address sets of a snapshot.
pub fn render_nft_sets(state: &Snapshot) -> (text: String)
    ensures
        text@ == nft_sets_text(state@),
{
    let mut out = String::new();
    out.append("define LOCAL_NET4={\n");
    let nets4 = firewall_nets(state, false);
    push_net_lines(&mut out, &nets4);
    out.append("\n}\n");
    out.append("define LOCAL_NET6={\n");
    let nets6 = firewall_nets(state, true);
    push_net_lines(&mut out, &nets6);
    out.append("\n}\n");
    assert(out@ =~= nft_sets_text(state@));
    out
}

} // verus!
