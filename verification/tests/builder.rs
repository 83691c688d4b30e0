use teleddns::addr::{IpAddress, Ipv4Address, Ipv6Address};
use teleddns::config::Config;
use teleddns::kernel::{
    classify_address, get_iface_addrs, link_iface, nl_get_addrs, nl_get_iface_map, snapshot_from,
    AddressAttr, AddressDisposition, AddressHeader, AddressMessage, LinkAttr, LinkMessage,
};
use teleddns::snapshot::{IfaceIpAddr, IfaceIpAddrData};
use std::collections::HashMap;

fn policy(interfaces: &[&str], private: bool, ula: bool) -> Config {
    Config {
        debug: None,
        ddns_url: "https://ddns.example/update".to_string(),
        hostname: "host.example".to_string(),
        enable_ipv6: true,
        enable_ipv4: true,
        report_ipv4_private: private,
        report_ipv6_ula: ula,
        interfaces: interfaces.iter().map(|p| p.to_string()).collect(),
        hooks: None,
    }
}

fn link(index: u32, flags: (bool, bool, bool), attributes: Vec<LinkAttr>) -> LinkMessage {
    LinkMessage { index, up: flags.0, lower_up: flags.1, running: flags.2, attributes }
}

fn name(n: &str) -> LinkAttr {
    LinkAttr::IfName(n.to_string())
}

fn address(index: u32, prefix_len: u8, attributes: Vec<AddressAttr>) -> AddressMessage {
    AddressMessage { header: AddressHeader { index, prefix_len, flags: 0 }, attributes }
}

fn ip4(a: u8, b: u8, c: u8, d: u8) -> IpAddress {
    IpAddress::V4(Ipv4Address::new(a, b, c, d))
}

fn ip6(s: [u16; 8]) -> IpAddress {
    IpAddress::V6(Ipv6Address::new(s))
}

#[test]
fn link_is_up_by_flags_or_by_operational_state() {
    let up = (true, true, true);
    assert_eq!(link_iface(&link(1, up, vec![name("eth0")])), Some("eth0".to_string()));
    assert_eq!(link_iface(&link(1, (true, true, false), vec![name("eth0")])), None);
    assert_eq!(link_iface(&link(1, (true, false, true), vec![name("eth0")])), None);
    assert_eq!(link_iface(&link(1, (false, true, true), vec![name("eth0")])), None);
    assert_eq!(
        link_iface(&link(1, (false, false, false), vec![name("eth0"), LinkAttr::OperStateUp])),
        Some("eth0".to_string())
    );
    assert_eq!(
        link_iface(&link(1, (false, false, false), vec![LinkAttr::OperStateUp, LinkAttr::Other, name("eth0")])),
        Some("eth0".to_string())
    );
    assert_eq!(link_iface(&link(1, (false, false, false), vec![name("eth0"), LinkAttr::Other])), None);
}

#[test]
fn link_without_name_is_left_out_and_last_name_counts() {
    let up = (true, true, true);
    assert_eq!(link_iface(&link(1, up, vec![])), None);
    assert_eq!(link_iface(&link(1, up, vec![LinkAttr::Other, LinkAttr::OperStateUp])), None);
    assert_eq!(link_iface(&link(1, up, vec![name("a"), LinkAttr::Other, name("b")])), Some("b".to_string()));
}

#[test]
fn interface_map_holds_up_links_and_later_link_wins() {
    let up = (true, true, true);
    let down = (true, false, false);
    let links = vec![
        link(1, up, vec![name("lo")]),
        link(2, up, vec![name("eth0")]),
        link(3, down, vec![name("wlan0")]),
        link(2, up, vec![name("enp2s0")]),
        link(4, down, vec![name("tun0"), LinkAttr::OperStateUp]),
        link(5, up, vec![LinkAttr::Other]),
    ];
    let map = nl_get_iface_map(&links);
    let mut expected = HashMap::new();
    expected.insert(1u32, "lo".to_string());
    expected.insert(2u32, "enp2s0".to_string());
    expected.insert(4u32, "tun0".to_string());
    assert_eq!(map, expected);
    assert!(nl_get_iface_map(&vec![]).is_empty());
}

#[test]
fn a_later_down_link_does_not_remove_an_earlier_up_one() {
    let links = vec![
        link(2, (true, true, true), vec![name("eth0")]),
        link(2, (false, false, false), vec![name("eth0")]),
    ];
    let map = nl_get_iface_map(&links);
    assert_eq!(map.get(&2), Some(&"eth0".to_string()));
}

#[test]
fn addresses_are_taken_from_the_address_attributes_in_order() {
    let msgs = vec![
        address(2, 24, vec![AddressAttr::Other, AddressAttr::Address(ip4(192, 0, 2, 1)), AddressAttr::Other]),
        address(3, 64, vec![]),
        address(4, 64, vec![AddressAttr::Address(ip6([0x2001, 0xdb8, 0, 0, 0, 0, 0, 1])), AddressAttr::Address(ip6([0x2001, 0xdb8, 0, 0, 0, 0, 0, 2]))]),
    ];
    let h = |index, prefix_len| AddressHeader { index, prefix_len, flags: 0 };
    assert_eq!(
        nl_get_addrs(&msgs),
        vec![
            (ip4(192, 0, 2, 1), h(2, 24)),
            (ip6([0x2001, 0xdb8, 0, 0, 0, 0, 0, 1]), h(4, 64)),
            (ip6([0x2001, 0xdb8, 0, 0, 0, 0, 0, 2]), h(4, 64)),
        ]
    );
    assert_eq!(nl_get_addrs(&vec![]), vec![]);
}

#[test]
fn address_on_unknown_interface_is_dropped() {
    let mut map = HashMap::new();
    map.insert(2u32, "eth0".to_string());
    let header = AddressHeader { index: 7, prefix_len: 24, flags: 0 };
    let d = classify_address(&map, &ip4(8, 8, 8, 8), &header, &policy(&["*"], false, false));
    assert!(matches!(d, AddressDisposition::UnknownInterface));
}

#[test]
fn address_on_filtered_interface_is_dropped() {
    let mut map = HashMap::new();
    map.insert(2u32, "eth0".to_string());
    let header = AddressHeader { index: 2, prefix_len: 24, flags: 0 };
    let d = classify_address(&map, &ip4(8, 8, 8, 8), &header, &policy(&["-eth0", "*"], false, false));
    assert!(matches!(d, AddressDisposition::FilteredOut));
    let d = classify_address(&map, &ip4(8, 8, 8, 8), &header, &policy(&[], false, false));
    assert!(matches!(d, AddressDisposition::FilteredOut));
}

#[test]
fn kept_address_gets_interface_subnet_and_metric() {
    let mut map = HashMap::new();
    map.insert(2u32, "enp0s3".to_string());
    let header = AddressHeader { index: 2, prefix_len: 24, flags: 0 };
    let d = classify_address(&map, &ip4(192, 168, 1, 77), &header, &policy(&["*"], true, false));
    match d {
        AddressDisposition::Kept(key, data) => {
            assert_eq!(key, IfaceIpAddr { addr: ip4(192, 168, 1, 77), prefix_len: 24 });
            assert_eq!(data, IfaceIpAddrData { iface: "enp0s3".to_string(), subnet_addr: ip4(192, 168, 1, 0), metric: 4 });
        }
        _ => panic!("the address should be kept"),
    }
    // an address that scores zero is kept all the same
    let d = classify_address(&map, &ip4(192, 168, 1, 77), &header, &policy(&["*"], false, false));
    match d {
        AddressDisposition::Kept(_, data) => assert_eq!(data.metric, 0),
        _ => panic!("the address should be kept"),
    }
    let header6 = AddressHeader { index: 2, prefix_len: 64, flags: 0 };
    let d = classify_address(&map, &ip6([0xfd00, 1, 2, 3, 4, 5, 6, 7]), &header6, &policy(&["enp0s3"], false, true));
    match d {
        AddressDisposition::Kept(key, data) => {
            assert_eq!(key.prefix_len, 64);
            assert_eq!(data.subnet_addr, ip6([0xfd00, 1, 2, 3, 0, 0, 0, 0]));
            assert_eq!(data.metric, 4);
        }
        _ => panic!("the address should be kept"),
    }
}

#[test]
fn snapshot_is_built_from_a_whole_report() {
    let links = vec![
        link(1, (true, true, true), vec![name("lo")]),
        link(2, (true, true, true), vec![name("enp0s3")]),
        link(3, (true, false, false), vec![name("wlan0")]),
    ];
    let addrs = vec![
        address(1, 8, vec![AddressAttr::Address(ip4(127, 0, 0, 1))]),
        address(2, 24, vec![AddressAttr::Address(ip4(198, 18, 5, 9))]),
        address(3, 24, vec![AddressAttr::Address(ip4(198, 18, 6, 9))]),
        address(9, 24, vec![AddressAttr::Address(ip4(198, 18, 7, 9))]),
        address(2, 64, vec![AddressAttr::Address(ip6([0x2a00, 1, 2, 3, 0x0211, 0x22ff, 0xfe33, 0x4455]))]),
    ];
    let conf = policy(&["-lo", "*"], false, false);
    let s = get_iface_addrs(Some(links), Some(addrs), &conf);
    assert_eq!(s.len(), 2);
    let k4 = IfaceIpAddr { addr: ip4(198, 18, 5, 9), prefix_len: 24 };
    let k6 = IfaceIpAddr { addr: ip6([0x2a00, 1, 2, 3, 0x0211, 0x22ff, 0xfe33, 0x4455]), prefix_len: 64 };
    assert_eq!(s.position(&k4), Some(0));
    assert_eq!(s.position(&k6), Some(1));
    assert_eq!(s.get(&k4), Some(&IfaceIpAddrData { iface: "enp0s3".to_string(), subnet_addr: ip4(198, 18, 5, 0), metric: 10 }));
    assert_eq!(s.get(&k6), Some(&IfaceIpAddrData { iface: "enp0s3".to_string(), subnet_addr: ip6([0x2a00, 1, 2, 3, 0, 0, 0, 0]), metric: 12 }));
}

#[test]
fn failed_query_counts_as_empty() {
    let conf = policy(&["*"], true, true);
    let links = vec![link(2, (true, true, true), vec![name("eth0")])];
    let addrs = vec![address(2, 24, vec![AddressAttr::Address(ip4(8, 8, 8, 8))])];
    assert_eq!(get_iface_addrs(None, None, &conf).len(), 0);
    assert_eq!(get_iface_addrs(Some(links.clone()), None, &conf).len(), 0);
    assert_eq!(get_iface_addrs(None, Some(addrs.clone()), &conf).len(), 0);
    assert_eq!(get_iface_addrs(Some(links), Some(addrs), &conf).len(), 1);
}

#[test]
fn an_address_reported_twice_is_one_entry_with_the_later_record() {
    let mut map = HashMap::new();
    map.insert(2u32, "eth0".to_string());
    map.insert(3u32, "enp3s0".to_string());
    let addrs = vec![
        (ip4(8, 8, 8, 8), AddressHeader { index: 2, prefix_len: 24, flags: 0 }),
        (ip4(8, 8, 4, 4), AddressHeader { index: 2, prefix_len: 24, flags: 0 }),
        (ip4(8, 8, 8, 8), AddressHeader { index: 3, prefix_len: 24, flags: 0 }),
    ];
    let s = snapshot_from(&map, &addrs, &policy(&["*"], false, false));
    assert_eq!(s.len(), 2);
    let key = IfaceIpAddr { addr: ip4(8, 8, 8, 8), prefix_len: 24 };
    assert_eq!(s.position(&key), Some(0));
    assert_eq!(s.get(&key).unwrap().iface, "enp3s0");
    assert_eq!(s.get(&key).unwrap().metric, 10);
}
