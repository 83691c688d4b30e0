use teleddns::addr::{
    get_subnet_addr, netmask_v4, netmask_v6, IpAddress, Ipv4Address, Ipv6Address,
};
use teleddns::classify::{
    compute_v4_metric, compute_v6_metric, flag_bonus, iface_bonus, match_iface_pattern,
};

fn patterns(list: &[&str]) -> Vec<String> {
    list.iter().map(|p| p.to_string()).collect()
}

fn v6(segments: [u16; 8]) -> Ipv6Address {
    Ipv6Address::new(segments)
}

#[test]
fn wildcard_includes_any_interface() {
    assert!(match_iface_pattern("eth0", &patterns(&["*"])));
}

#[test]
fn exclusion_before_wildcard_excludes() {
    assert!(!match_iface_pattern("eth0", &patterns(&["-eth0", "*"])));
    assert!(match_iface_pattern("eth1", &patterns(&["-eth0", "*"])));
}

#[test]
fn exclusion_after_wildcard_is_unreachable() {
    assert!(match_iface_pattern("eth0", &patterns(&["*", "-eth0"])));
}

#[test]
fn pattern_list_is_tried_in_order() {
    assert!(!match_iface_pattern("eth0", &patterns(&[])));
    assert!(match_iface_pattern("eth0", &patterns(&["eth0"])));
    assert!(!match_iface_pattern("eth1", &patterns(&["eth0"])));
    assert!(!match_iface_pattern("eth0", &patterns(&["-eth0", "eth0"])));
    assert!(match_iface_pattern("eth0", &patterns(&["eth0", "-eth0"])));
    assert!(match_iface_pattern("eth0", &patterns(&["wlan0", "-eth1", "eth0"])));
    assert!(!match_iface_pattern("eth0", &patterns(&["wlan0", "-eth1", "eth2"])));
    assert!(!match_iface_pattern("", &patterns(&["-", "*"])));
    assert!(match_iface_pattern("*", &patterns(&["*"])));
    assert!(!match_iface_pattern("*", &patterns(&["-*", "*"])));
}

#[test]
fn interface_bonus_prefers_wired_then_wireless() {
    assert_eq!(iface_bonus("enp0s3"), 2);
    assert_eq!(iface_bonus("en"), 2);
    assert_eq!(iface_bonus("wlan0"), 1);
    assert_eq!(iface_bonus("wl"), 1);
    assert_eq!(iface_bonus("eth0"), 0);
    assert_eq!(iface_bonus("e"), 0);
    assert_eq!(iface_bonus("w"), 0);
    assert_eq!(iface_bonus(""), 0);
    assert_eq!(iface_bonus("xen0"), 0);
    assert_eq!(iface_bonus("ne0"), 0);
}

#[test]
fn flag_bonus_is_reserved() {
    assert_eq!(flag_bonus(0), 0);
    assert_eq!(flag_bonus(0x80), 0);
    assert_eq!(flag_bonus(u32::MAX), 0);
}

#[test]
fn reserved_v4_addresses_score_zero_under_every_policy() {
    for accept in [false, true] {
        for iface in ["eth0", "enp0s3", "wlan0"] {
            assert_eq!(compute_v4_metric(&Ipv4Address::new(127, 0, 0, 1), iface, 0, accept), 0);
            assert_eq!(compute_v4_metric(&Ipv4Address::new(127, 255, 255, 254), iface, 0, accept), 0);
            assert_eq!(compute_v4_metric(&Ipv4Address::new(0, 0, 0, 0), iface, 0, accept), 0);
            assert_eq!(compute_v4_metric(&Ipv4Address::new(192, 0, 2, 5), iface, 0, accept), 0);
            assert_eq!(compute_v4_metric(&Ipv4Address::new(198, 51, 100, 1), iface, 0, accept), 0);
            assert_eq!(compute_v4_metric(&Ipv4Address::new(203, 0, 113, 200), iface, 0, accept), 0);
            assert_eq!(compute_v4_metric(&Ipv4Address::new(169, 254, 1, 1), iface, 0, accept), 0);
        }
    }
}

#[test]
fn reserved_v6_addresses_score_zero_under_every_policy() {
    for accept in [false, true] {
        for iface in ["eth0", "enp0s3", "wlan0"] {
            assert_eq!(compute_v6_metric(&v6([0, 0, 0, 0, 0, 0, 0, 1]), iface, 0, accept), 0);
            assert_eq!(compute_v6_metric(&v6([0, 0, 0, 0, 0, 0, 0, 0]), iface, 0, accept), 0);
            assert_eq!(compute_v6_metric(&v6([0x2001, 0xdb8, 0, 0, 0, 0, 0, 1]), iface, 0, accept), 0);
            assert_eq!(compute_v6_metric(&v6([0x2001, 0xdb8, 1, 2, 3, 0xff, 0xfe00, 1]), iface, 0, accept), 0);
            assert_eq!(compute_v6_metric(&v6([0x3fff, 0, 0, 0, 0, 0, 0, 1]), iface, 0, accept), 0);
            assert_eq!(compute_v6_metric(&v6([0x3fff, 0x0fff, 0, 0, 0, 0, 0, 1]), iface, 0, accept), 0);
            assert_eq!(compute_v6_metric(&v6([0xfe80, 0, 0, 0, 0, 0, 0, 1]), iface, 0, accept), 0);
            assert_eq!(compute_v6_metric(&v6([0xfebf, 0xffff, 0, 0, 0, 0, 0, 1]), iface, 0, accept), 0);
            assert_eq!(compute_v6_metric(&v6([0xff02, 0, 0, 0, 0, 0, 0, 1]), iface, 0, accept), 0);
            assert_eq!(compute_v6_metric(&v6([0, 0, 0, 0, 0, 0xffff, 0xc0a8, 0x0101]), iface, 0, accept), 0);
            assert_eq!(compute_v6_metric(&v6([0x2001, 0x2, 0, 0x1234, 0, 0, 0, 1]), iface, 0, accept), 0);
        }
    }
}

#[test]
fn private_v4_scores_only_where_accepted() {
    let ip = Ipv4Address::new(192, 168, 1, 10);
    assert_eq!(compute_v4_metric(&ip, "enp0s3", 0, true), 4);
    assert_eq!(compute_v4_metric(&ip, "enp0s3", 0, false), 0);
    assert_eq!(compute_v4_metric(&ip, "wlan0", 0, true), 3);
    assert_eq!(compute_v4_metric(&ip, "eth0", 0, true), 2);
    assert_eq!(compute_v4_metric(&Ipv4Address::new(10, 1, 2, 3), "eth0", 0, true), 2);
    assert_eq!(compute_v4_metric(&Ipv4Address::new(10, 1, 2, 3), "eth0", 0, false), 0);
    assert_eq!(compute_v4_metric(&Ipv4Address::new(172, 16, 0, 1), "eth0", 0, true), 2);
    assert_eq!(compute_v4_metric(&Ipv4Address::new(172, 31, 255, 255), "eth0", 0, false), 0);
    assert_eq!(compute_v4_metric(&Ipv4Address::new(172, 32, 0, 1), "eth0", 0, false), 8);
    assert_eq!(compute_v4_metric(&Ipv4Address::new(172, 15, 0, 1), "eth0", 0, false), 8);
    assert_eq!(compute_v4_metric(&Ipv4Address::new(192, 169, 0, 1), "eth0", 0, false), 8);
}

#[test]
fn global_v4_scores_eight_plus_bonus() {
    let ip = Ipv4Address::new(8, 8, 8, 8);
    assert_eq!(compute_v4_metric(&ip, "eth0", 0, false), 8);
    assert_eq!(compute_v4_metric(&ip, "enp3s0", 0, false), 10);
    assert_eq!(compute_v4_metric(&ip, "wlan0", 0, true), 9);
    assert_eq!(compute_v4_metric(&Ipv4Address::new(192, 0, 3, 1), "eth0", 0, false), 8);
    assert_eq!(compute_v4_metric(&Ipv4Address::new(128, 0, 0, 1), "eth0", 0, false), 8);
}

#[test]
fn eui64_v6_on_wireless_scores_eleven() {
    let ip = v6([0x2a00, 1, 2, 3, 0x0211, 0x22ff, 0xfe33, 0x4455]);
    assert_eq!(compute_v6_metric(&ip, "wlan0", 0, false), 11);
    assert_eq!(compute_v6_metric(&ip, "enp1s0", 0, false), 12);
    assert_eq!(compute_v6_metric(&ip, "eth0", 0, true), 10);
}

#[test]
fn global_v6_without_marker_scores_eight_plus_bonus() {
    let ip = v6([0x2a00, 1, 2, 3, 0x1234, 0x5678, 0x9abc, 0xdef0]);
    assert_eq!(compute_v6_metric(&ip, "eth0", 0, false), 8);
    assert_eq!(compute_v6_metric(&ip, "en0", 0, false), 10);
    assert_eq!(compute_v6_metric(&ip, "wlp2s0", 0, false), 9);
    // the marker one octet off is no marker
    assert_eq!(compute_v6_metric(&v6([0x2a00, 1, 2, 3, 0x0211, 0xfffe, 0x2233, 0x4455]), "eth0", 0, false), 8);
    assert_eq!(compute_v6_metric(&v6([0x2a00, 1, 2, 3, 0x0211, 0x2233, 0xfffe, 0x4455]), "eth0", 0, false), 8);
    // just outside the documentation and benchmarking ranges
    assert_eq!(compute_v6_metric(&v6([0x3fff, 0x1000, 0, 0, 0, 0, 0, 1]), "eth0", 0, false), 8);
    assert_eq!(compute_v6_metric(&v6([0x2001, 0xdb9, 0, 0, 0, 0, 0, 1]), "eth0", 0, false), 8);
    assert_eq!(compute_v6_metric(&v6([0x2001, 0x2, 1, 0, 0, 0, 0, 1]), "eth0", 0, false), 8);
    assert_eq!(compute_v6_metric(&v6([0xfec0, 0, 0, 0, 0, 0, 0, 1]), "eth0", 0, false), 8);
}

#[test]
fn unique_local_v6_scores_only_where_accepted() {
    let ip = v6([0xfd00, 1, 2, 3, 0, 0, 0, 1]);
    assert_eq!(compute_v6_metric(&ip, "eth0", 0, true), 2);
    assert_eq!(compute_v6_metric(&ip, "enp0s3", 0, true), 4);
    assert_eq!(compute_v6_metric(&ip, "enp0s3", 0, false), 0);
    assert_eq!(compute_v6_metric(&v6([0xfc00, 0, 0, 0, 0, 0, 0, 1]), "wlan0", 0, true), 3);
    // a unique-local address with the marker is still unique-local
    let marked = v6([0xfd00, 1, 2, 3, 0x0211, 0x22ff, 0xfe33, 0x4455]);
    assert_eq!(compute_v6_metric(&marked, "eth0", 0, true), 2);
    assert_eq!(compute_v6_metric(&marked, "eth0", 0, false), 0);
}

#[test]
fn netmask_has_the_prefix_bits_set() {
    assert_eq!(netmask_v4(0), 0);
    assert_eq!(netmask_v4(1), 0x8000_0000);
    assert_eq!(netmask_v4(8), 0xff00_0000);
    assert_eq!(netmask_v4(24), 0xffff_ff00);
    assert_eq!(netmask_v4(31), 0xffff_fffe);
    assert_eq!(netmask_v4(32), 0xffff_ffff);
    assert_eq!(netmask_v4(200), 0xffff_ffff);
    assert_eq!(netmask_v6(0), 0);
    assert_eq!(netmask_v6(64), 0xffff_ffff_ffff_ffff_0000_0000_0000_0000);
    assert_eq!(netmask_v6(127), 0xffff_ffff_ffff_ffff_ffff_ffff_ffff_fffe);
    assert_eq!(netmask_v6(128), u128::MAX);
    assert_eq!(netmask_v6(255), u128::MAX);
}

#[test]
fn subnet_is_the_address_masked_by_the_prefix() {
    let ip4 = IpAddress::V4(Ipv4Address::new(192, 168, 1, 77));
    assert_eq!(get_subnet_addr(&ip4, 24), IpAddress::V4(Ipv4Address::new(192, 168, 1, 0)));
    assert_eq!(get_subnet_addr(&ip4, 16), IpAddress::V4(Ipv4Address::new(192, 168, 0, 0)));
    assert_eq!(get_subnet_addr(&ip4, 30), IpAddress::V4(Ipv4Address::new(192, 168, 1, 76)));
    assert_eq!(get_subnet_addr(&ip4, 0), IpAddress::V4(Ipv4Address::new(0, 0, 0, 0)));
    assert_eq!(get_subnet_addr(&ip4, 32), ip4);
    assert_eq!(get_subnet_addr(&ip4, 33), ip4);
    let ip6 = IpAddress::V6(v6([0x2001, 0xdb8, 0xabcd, 0x1234, 0x5678, 0, 0, 1]));
    assert_eq!(get_subnet_addr(&ip6, 64), IpAddress::V6(v6([0x2001, 0xdb8, 0xabcd, 0x1234, 0, 0, 0, 0])));
    assert_eq!(get_subnet_addr(&ip6, 48), IpAddress::V6(v6([0x2001, 0xdb8, 0xabcd, 0, 0, 0, 0, 0])));
    assert_eq!(get_subnet_addr(&ip6, 60), IpAddress::V6(v6([0x2001, 0xdb8, 0xabcd, 0x1230, 0, 0, 0, 0])));
    assert_eq!(get_subnet_addr(&ip6, 0), IpAddress::V6(v6([0, 0, 0, 0, 0, 0, 0, 0])));
    assert_eq!(get_subnet_addr(&ip6, 128), ip6);
    // masking twice changes nothing
    let once = get_subnet_addr(&ip6, 60);
    assert_eq!(get_subnet_addr(&once, 60), once);
}

#[test]
fn address_parts_round_trip() {
    let ip4 = Ipv4Address::new(203, 0, 113, 9);
    assert_eq!(ip4.to_bits(), 0xcb00_7109);
    assert_eq!([ip4.octet(0), ip4.octet(1), ip4.octet(2), ip4.octet(3)], [203, 0, 113, 9]);
    assert_eq!(Ipv4Address::from_bits(0xcb00_7109), ip4);
    let segments = [0x2001, 0xdb8, 0, 0xffff, 0x1, 0x20, 0x300, 0x4000];
    let ip6 = v6(segments);
    assert_eq!(ip6.to_bits(), 0x2001_0db8_0000_ffff_0001_0020_0300_4000);
    assert_eq!(ip6.segments(), segments);
    assert_eq!(ip6.segment(3), 0xffff);
    assert_eq!(Ipv6Address::from_bits(ip6.to_bits()), ip6);
    assert_eq!(v6([0, 0, 0, 0, 0, 0xffff, 0xc000, 0x0201]).embedded_v4(), Ipv4Address::new(192, 0, 2, 1));
    assert!(ip4.is_documentation() && !ip4.is_private() && !ip4.is_loopback());
    assert!(ip6.is_documentation() && !ip6.is_unique_local() && !ip6.has_eui64_marker());
    assert!(IpAddress::V4(ip4).is_v4() && !IpAddress::V6(ip6).is_v4());
}
