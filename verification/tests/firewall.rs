use teleddns::addr::{get_subnet_addr, IpAddress, Ipv4Address, Ipv6Address};
use teleddns::nft::{firewall_nets, render_nft_sets};
use teleddns::snapshot::{IfaceIpAddr, IfaceIpAddrData, Snapshot};

fn ip4(a: u8, b: u8, c: u8, d: u8) -> IpAddress {
    IpAddress::V4(Ipv4Address::new(a, b, c, d))
}

fn ip6(s: [u16; 8]) -> IpAddress {
    IpAddress::V6(Ipv6Address::new(s))
}

fn with(s: Snapshot, addr: IpAddress, prefix_len: u8) -> Snapshot {
    s.insert(
        IfaceIpAddr { addr, prefix_len },
        IfaceIpAddrData { iface: "eth0".to_string(), subnet_addr: get_subnet_addr(&addr, prefix_len), metric: 8 },
    )
}

#[test]
fn empty_snapshot_gives_two_empty_sets() {
    assert_eq!(render_nft_sets(&Snapshot::new()), "define LOCAL_NET4={\n\n}\ndefine LOCAL_NET6={\n\n}\n");
}

#[test]
fn sets_list_the_subnets_of_each_family() {
    let s = with(Snapshot::new(), ip4(192, 168, 1, 77), 24);
    let s = with(s, ip6([0x2001, 0xdb8, 0xabcd, 0x12, 1, 2, 3, 4]), 64);
    let s = with(s, ip4(10, 1, 2, 3), 8);
    let s = with(s, ip6([0xfe80, 0, 0, 0, 1, 2, 3, 4]), 10);
    assert_eq!(
        render_nft_sets(&s),
        "define LOCAL_NET4={\n192.168.1.0/24,\n10.0.0.0/8\n}\ndefine LOCAL_NET6={\n2001:db8:abcd:12::/64,\nfe80::/10\n}\n"
    );
}

#[test]
fn same_subnet_and_prefix_is_written_once() {
    let s = with(with(Snapshot::new(), ip4(192, 168, 1, 77), 24), ip4(192, 168, 1, 78), 24);
    assert_eq!(firewall_nets(&s, false), vec![(ip4(192, 168, 1, 0), 24)]);
    assert_eq!(render_nft_sets(&s), "define LOCAL_NET4={\n192.168.1.0/24\n}\ndefine LOCAL_NET6={\n\n}\n");
    let s = with(with(Snapshot::new(), ip6([0x2a00, 0, 0, 1, 0, 0, 0, 1]), 64), ip6([0x2a00, 0, 0, 1, 0, 0, 0, 2]), 64);
    assert_eq!(firewall_nets(&s, true), vec![(ip6([0x2a00, 0, 0, 1, 0, 0, 0, 0]), 64)]);
    assert_eq!(firewall_nets(&s, false), vec![]);
}

#[test]
fn same_subnet_with_other_prefix_is_written_too() {
    let s = with(with(Snapshot::new(), ip4(10, 0, 0, 1), 8), ip4(10, 0, 0, 2), 16);
    assert_eq!(firewall_nets(&s, false), vec![(ip4(10, 0, 0, 0), 8), (ip4(10, 0, 0, 0), 16)]);
    assert_eq!(render_nft_sets(&s), "define LOCAL_NET4={\n10.0.0.0/8,\n10.0.0.0/16\n}\ndefine LOCAL_NET6={\n\n}\n");
}

#[test]
fn a_pair_once_written_is_not_written_again() {
    let s = with(Snapshot::new(), ip4(10, 0, 0, 1), 8);
    let s = with(s, ip4(10, 0, 0, 2), 16);
    let s = with(s, ip4(10, 0, 0, 3), 8);
    let s = with(s, ip4(10, 0, 0, 4), 16);
    assert_eq!(firewall_nets(&s, false), vec![(ip4(10, 0, 0, 0), 8), (ip4(10, 0, 0, 0), 16)]);
}

#[test]
fn zero_scoring_addresses_are_in_the_sets_too() {
    let addr = ip4(127, 0, 0, 1);
    let s = Snapshot::new().insert(
        IfaceIpAddr { addr, prefix_len: 8 },
        IfaceIpAddrData { iface: "lo".to_string(), subnet_addr: get_subnet_addr(&addr, 8), metric: 0 },
    );
    assert_eq!(render_nft_sets(&s), "define LOCAL_NET4={\n127.0.0.0/8\n}\ndefine LOCAL_NET6={\n\n}\n");
}
