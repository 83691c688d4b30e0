//! What the kernel reports of links and addresses, as plain values, and the
//! builder that turns one full report into a snapshot.
//!
//! A snapshot is always built from a whole report. A report that could not
//! be had counts as an empty one.

use crate::addr::IpAddress;
use crate::classify::{
    compute_v4_metric, compute_v6_metric, match_iface_pattern, spec_match_iface_pattern,
    spec_v4_metric, spec_v6_metric,
};
use crate::config::{texts, Config};
use crate::snapshot::{entries_insert, Entry, IfaceIpAddr, IfaceIpAddrData, IfaceIpAddrDataView, Snapshot};
use std::collections::HashMap;
use vstd::prelude::*;

verus! {

/// An attribute of a link message, as far as the agent reads it.
#[derive(Clone, Debug)]
pub enum LinkAttr {
    /// The interface's name.
    IfName(String),
    /// The operational state, where it is "up".
    OperStateUp,
    /// Any other attribute.
    Other,
}

/// One link of the kernel's list of links.
#[derive(Clone, Debug)]
pub struct LinkMessage {
    pub index: u32,
    /// The interface is administratively up.
    pub up: bool,
    /// The interface has a carrier.
    pub lower_up: bool,
    /// The interface is operational.
    pub running: bool,
    pub attributes: Vec<LinkAttr>,
}

/// An attribute of an address message, as far as the agent reads it.
#[derive(Clone, Copy, Debug, PartialEq, Eq, Structural)]
pub enum AddressAttr {
    Address(IpAddress),
    Other,
}

/// The header of an address message.
#[derive(Clone, Copy, Debug, PartialEq, Eq, Structural)]
pub struct AddressHeader {
    /// The index of the interface that owns the address.
    pub index: u32,
    pub prefix_len: u8,
    pub flags: u32,
}

/// One message of the kernel's list of addresses.
#[derive(Clone, Debug)]
pub struct AddressMessage {
    pub header: AddressHeader,
    pub attributes: Vec<AddressAttr>,
}

/// What became of one reported address.
#[derive(Clone, Debug)]
pub enum AddressDisposition {
    /// It goes into the snapshot with this record.
    Kept(IfaceIpAddr, IfaceIpAddrData),
    /// Its interface is not among the interfaces that are up.
    UnknownInterface,
    /// Its interface is left out by the interface patterns.
    FilteredOut,
}

/// The name that the last name attribute gives, if there is one.
pub open spec fn link_name(attrs: Seq<LinkAttr>) -> Option<Seq<char>>
    decreases attrs.len(),
{
    if attrs.len() == 0 {
        None
    } else {
        match attrs.last() {
            LinkAttr::IfName(name) => Some(name@),
            _ => link_name(attrs.drop_last()),
        }
    }
}

/// Whether some attribute tells that the operational state is "up".
pub open spec fn oper_state_up(attrs: Seq<LinkAttr>) -> bool {
    exists|i: int| 0 <= i < attrs.len() && #[trigger] attrs[i] is OperStateUp
}

/// Whether the link counts as up: it is administratively up, has a carrier
/// and is operational, or an attribute tells that its operational state is
/// "up".
pub open spec fn link_is_up(msg: LinkMessage) -> bool {
    (msg.up && msg.lower_up && msg.running) || oper_state_up(msg.attributes@)
}

/// The name under which a link enters the interface map: its name, if it has
/// one and is up.
pub open spec fn spec_link_iface(msg: LinkMessage) -> Option<Seq<char>> {
    if link_is_up(msg) {
        link_name(msg.attributes@)
    } else {
        None
    }
}

/// The interface map of a list of links: index to name, for the links that
/// are up and named. Of two links with one index the later counts.
pub open spec fn spec_iface_map(msgs: Seq<LinkMessage>) -> Map<u32, Seq<char>>
    decreases msgs.len(),
{
    if msgs.len() == 0 {
        Map::empty()
    } else {
        let before = spec_iface_map(msgs.drop_last());
        match spec_link_iface(msgs.last()) {
            Some(name) => before.insert(msgs.last().index, name),
            None => before,
        }
    }
}

/// The names of an interface map as plain values.
pub open spec fn name_map(m: Map<u32, String>) -> Map<u32, Seq<char>> {
    Map::new(|k: u32| m.contains_key(k), |k: u32| m[k]@)
}

/// The addresses that the attributes hold, in their order, each with the
/// header of its message.
pub open spec fn message_addrs(attrs: Seq<AddressAttr>, header: AddressHeader) -> Seq<
    (IpAddress, AddressHeader),
>
    decreases attrs.len(),
{
    if attrs.len() == 0 {
        Seq::empty()
    } else {
        let before = message_addrs(attrs.drop_last(), header);
        match attrs.last() {
            AddressAttr::Address(ip) => before.push((ip, header)),
            AddressAttr::Other => before,
        }
    }
}

/// The addresses of a list of address messages, in the order of the list.
pub open spec fn spec_addrs(msgs: Seq<AddressMessage>) -> Seq<(IpAddress, AddressHeader)>
    decreases msgs.len(),
{
    if msgs.len() == 0 {
        Seq::empty()
    } else {
        spec_addrs(msgs.drop_last()) + message_addrs(msgs.last().attributes@, msgs.last().header)
    }
}

/// The entry that a reported address makes, if it makes one: its interface
/// is up and matches the patterns of the policy.
pub open spec fn spec_entry(
    ifaces: Map<u32, Seq<char>>,
    ip: IpAddress,
    header: AddressHeader,
    conf: Config,
) -> Option<Entry> {
    if !ifaces.contains_key(header.index) {
        None
    } else if !spec_match_iface_pattern(ifaces[header.index], texts(conf.interfaces@)) {
        None
    } else {
        let iface = ifaces[header.index];
        Some(
            (
                IfaceIpAddr { addr: ip, prefix_len: header.prefix_len },
                IfaceIpAddrDataView {
                    iface,
                    subnet_addr: ip.spec_subnet(header.prefix_len),
                    metric: match ip {
                        IpAddress::V6(ip6) => spec_v6_metric(
                            ip6,
                            iface,
                            header.flags,
                            conf.report_ipv6_ula,
                        ),
                        IpAddress::V4(ip4) => spec_v4_metric(
                            ip4,
                            iface,
                            header.flags,
                            conf.report_ipv4_private,
                        ),
                    },
                },
            ),
        )
    }
}

/// The entries of the snapshot that a report makes: every address that
/// makes an entry is inserted, in the order of the report.
pub open spec fn spec_snapshot(
    ifaces: Map<u32, Seq<char>>,
    addrs: Seq<(IpAddress, AddressHeader)>,
    conf: Config,
) -> Seq<Entry>
    decreases addrs.len(),
{
    if addrs.len() == 0 {
        Seq::empty()
    } else {
        let before = spec_snapshot(ifaces, addrs.drop_last(), conf);
        match spec_entry(ifaces, addrs.last().0, addrs.last().1, conf) {
            Some(entry) => entries_insert(before, entry.0, entry.1),
            None => before,
        }
    }
}

/// The links of a report, none where the report could not be had.
pub open spec fn links_or_none(links: Option<Vec<LinkMessage>>) -> Seq<LinkMessage> {
    match links {
        Some(v) => v@,
        None => Seq::empty(),
    }
}

/// The address messages of a report, none where the report could not be
/// had.
pub open spec fn addresses_or_none(addrs: Option<Vec<AddressMessage>>) -> Seq<AddressMessage> {
    match addrs {
        Some(v) => v@,
        None => Seq::empty(),
    }
}

/// The name under which a link enters the interface map, if it enters it.
pub fn link_iface(msg: &LinkMessage) -> (name: Option<String>)
    ensures
        match name {
            Some(n) => spec_link_iface(*msg) == Some(n@),
            None => spec_link_iface(*msg) is None,
        },
{
    let mut found: Option<&String> = None;
    let mut is_up = msg.up && msg.lower_up && msg.running;
    let mut i: usize = 0;
    assert(msg.attributes@.subrange(0, 0) =~= Seq::<LinkAttr>::empty());
    while i < msg.attributes.len()
        invariant
            i <= msg.attributes@.len(),
            match found {
                Some(n) => link_name(msg.attributes@.subrange(0, i as int)) == Some(n@),
                None => link_name(msg.attributes@.subrange(0, i as int)) is None,
            },
            is_up == ((msg.up && msg.lower_up && msg.running) || exists|j: int|
                0 <= j < i && #[trigger] msg.attributes@[j] is OperStateUp),
        decreases msg.attributes.len() - i,
    {
        proof {
            let upto = msg.attributes@.subrange(0, i + 1);
            assert(upto.drop_last() =~= msg.attributes@.subrange(0, i as int));
            assert(upto.last() == msg.attributes@[i as int]);
        }
        match &msg.attributes[i] {
            LinkAttr::IfName(ifn) => {
                found = Some(ifn);
            },
            LinkAttr::OperStateUp => {
                is_up = true;
            },
            LinkAttr::Other => {},
        }
        i += 1;
    }
    assert(msg.attributes@.subrange(0, i as int) =~= msg.attributes@);
    match found {
        Some(n) => {
            if is_up {
                Some(n.clone())
            } else {
                None
            }
        },
        None => None,
    }
}

/// The interface map of the kernel's list of links.
pub fn nl_get_iface_map(msgs: &Vec<LinkMessage>) -> (res: HashMap<u32, String>)
    ensures
        name_map(res@) == spec_iface_map(msgs@),
{
    let mut res: HashMap<u32, String> = HashMap::new();
    let mut i: usize = 0;
    assert(msgs@.subrange(0, 0) =~= Seq::<LinkMessage>::empty());
    assert(name_map(res@) =~= Map::<u32, Seq<char>>::empty());
    while i < msgs.len()
        invariant
            i <= msgs@.len(),
            name_map(res@) == spec_iface_map(msgs@.subrange(0, i as int)),
        decreases msgs.len() - i,
    {
        proof {
            let upto = msgs@.subrange(0, i + 1);
            assert(upto.drop_last() =~= msgs@.subrange(0, i as int));
            assert(upto.last() == msgs@[i as int]);
        }
        let ghost before = res@;
        match link_iface(&msgs[i]) {
            Some(name) => {
                res.insert(msgs[i].index, name);
                assert(name_map(res@) =~= name_map(before).insert(msgs@[i as int].index, name@));
            },
            None => {},
        }
        i += 1;
    }
    assert(msgs@.subrange(0, i as int) =~= msgs@);
    res
}

/// The addresses of the kernel's list of address messages, each with the
/// header of its message.
pub fn nl_get_addrs(msgs: &Vec<AddressMessage>) -> (res: Vec<(IpAddress, AddressHeader)>)
    ensures
        res@ == spec_addrs(msgs@),
{
    let mut res: Vec<(IpAddress, AddressHeader)> = Vec::new();
    let mut i: usize = 0;
    assert(msgs@.subrange(0, 0) =~= Seq::<AddressMessage>::empty());
    while i < msgs.len()
        invariant
            i <= msgs@.len(),
            res@ == spec_addrs(msgs@.subrange(0, i as int)),
        decreases msgs.len() - i,
    {
        proof {
            let upto = msgs@.subrange(0, i + 1);
            assert(upto.drop_last() =~= msgs@.subrange(0, i as int));
            assert(upto.last() == msgs@[i as int]);
        }
        let msg = &msgs[i];
        let ghost before = res@;
        let mut j: usize = 0;
        assert(msg.attributes@.subrange(0, 0) =~= Seq::<AddressAttr>::empty());
        assert(res@ =~= before + message_addrs(msg.attributes@.subrange(0, 0), msg.header));
        while j < msg.attributes.len()
            invariant
                j <= msg.attributes@.len(),
                res@ == before + message_addrs(msg.attributes@.subrange(0, j as int), msg.header),
            decreases msg.attributes.len() - j,
        {
            proof {
                let upto = msg.attributes@.subrange(0, j + 1);
                assert(upto.drop_last() =~= msg.attributes@.subrange(0, j as int));
                assert(upto.last() == msg.attributes@[j as int]);
            }
            match msg.attributes[j] {
                AddressAttr::Address(addr) => {
                    res.push((addr, msg.header));
                    assert(res@ =~= before + message_addrs(
                        msg.attributes@.subrange(0, j + 1),
                        msg.header,
                    ));
                },
                AddressAttr::Other => {},
            }
            j += 1;
        }
        assert(msg.attributes@.subrange(0, j as int) =~= msg.attributes@);
        i += 1;
    }
    assert(msgs@.subrange(0, i as int) =~= msgs@);
    res
}

/// Decides whether a reported address goes into the snapshot, and with
/// which record.
pub fn classify_address(
    iface_map: &HashMap<u32, String>,
    ip: &IpAddress,
    header: &AddressHeader,
    conf: &Config,
) -> (d: AddressDisposition)
    ensures
        d is UnknownInterface <==> !iface_map@.contains_key(header.index),
        d is FilteredOut <==> iface_map@.contains_key(header.index) && !spec_match_iface_pattern(
            iface_map@[header.index]@,
            texts(conf.interfaces@),
        ),
        match d {
            AddressDisposition::Kept(key, data) => spec_entry(
                name_map(iface_map@),
                *ip,
                *header,
                *conf,
            ) == Some((key, data@)),
            _ => spec_entry(name_map(iface_map@), *ip, *header, *conf) is None,
        },
{
    match iface_map.get(&header.index) {
        Some(iface) => {
            if match_iface_pattern(iface.as_str(), &conf.interfaces) {
                let m = match ip {
                    IpAddress::V6(ip6) => compute_v6_metric(
                        ip6,
                        iface.as_str(),
                        header.flags,
                        conf.report_ipv6_ula,
                    ),
                    IpAddress::V4(ip4) => compute_v4_metric(
                        ip4,
                        iface.as_str(),
                        header.flags,
                        conf.report_ipv4_private,
                    ),
                };
                AddressDisposition::Kept(
                    IfaceIpAddr { addr: *ip, prefix_len: header.prefix_len },
                    IfaceIpAddrData {
                        iface: iface.clone(),
                        subnet_addr: crate::addr::get_subnet_addr(ip, header.prefix_len),
                        metric: m,
                    },
                )
            } else {
                AddressDisposition::FilteredOut
            }
        },
        None => AddressDisposition::UnknownInterface,
    }
}

/// The snapshot of one report, from the interface map and the addresses.
pub fn snapshot_from(
    iface_map: &HashMap<u32, String>,
    addr_vec: &Vec<(IpAddress, AddressHeader)>,
    conf: &Config,
) -> (ifaddrs: Snapshot)
    ensures
        ifaddrs@ == spec_snapshot(name_map(iface_map@), addr_vec@, *conf),
{
    let mut ifaddrs = Snapshot::new();
    let mut i: usize = 0;
    assert(addr_vec@.subrange(0, 0) =~= Seq::<(IpAddress, AddressHeader)>::empty());
    while i < addr_vec.len()
        invariant
            i <= addr_vec@.len(),
            ifaddrs@ == spec_snapshot(name_map(iface_map@), addr_vec@.subrange(0, i as int), *conf),
        decreases addr_vec.len() - i,
    {
        proof {
            let upto = addr_vec@.subrange(0, i + 1);
            assert(upto.drop_last() =~= addr_vec@.subrange(0, i as int));
            assert(upto.last() == addr_vec@[i as int]);
        }
        let pair = &addr_vec[i];
        match classify_address(iface_map, &pair.0, &pair.1, conf) {
            AddressDisposition::Kept(key, data) => {
                ifaddrs = ifaddrs.insert(key, data);
            },
            _ => {},
        }
        i += 1;
    }
    assert(addr_vec@.subrange(0, i as int) =~= addr_vec@);
    ifaddrs
}

/// Builds the snapshot of one full report of the kernel: the list of links
/// and the list of address messages. A list that could not be had (`None`)
/// counts as empty.
pub fn get_iface_addrs(
    links: Option<Vec<LinkMessage>>,
    addrs: Option<Vec<AddressMessage>>,
    conf: &Config,
) -> (ifaddrs: Snapshot)
    ensures
        ifaddrs@ == spec_snapshot(
            spec_iface_map(links_or_none(links)),
            spec_addrs(addresses_or_none(addrs)),
            *conf,
        ),
{
    let iface_map = match &links {
        Some(msgs) => nl_get_iface_map(msgs),
        None => {
            let empty: HashMap<u32, String> = HashMap::new();
            assert(name_map(empty@) =~= Map::<u32, Seq<char>>::empty());
            empty
        },
    };
    let addr_vec = match &addrs {
        Some(msgs) => nl_get_addrs(msgs),
        None => Vec::new(),
    };
    snapshot_from(&iface_map, &addr_vec, conf)
}

/// A report without links makes an empty snapshot: every address is on an
/// unknown interface.
pub proof fn lemma_no_links_no_entries(addrs: Seq<(IpAddress, AddressHeader)>, conf: Config)
    ensures
        spec_snapshot(Map::empty(), addrs, conf) == Seq::<Entry>::empty(),
    decreases addrs.len(),
{
    if addrs.len() > 0 {
        lemma_no_links_no_entries(addrs.drop_last(), conf);
    }
}

/// A snapshot built from a report holds each address once.
pub proof fn lemma_snapshot_keys_unique(
    ifaces: Map<u32, Seq<char>>,
    addrs: Seq<(IpAddress, AddressHeader)>,
    conf: Config,
)
    ensures
        crate::snapshot::keys_unique(spec_snapshot(ifaces, addrs, conf)),
    decreases addrs.len(),
{
    if addrs.len() > 0 {
        lemma_snapshot_keys_unique(ifaces, addrs.drop_last(), conf);
        let before = spec_snapshot(ifaces, addrs.drop_last(), conf);
        match spec_entry(ifaces, addrs.last().0, addrs.last().1, conf) {
            Some(entry) => {
                crate::snapshot::lemma_insert_is_map_insert(before, entry.0, entry.1);
            },
            None => {},
        }
    }
}

} // verus!
