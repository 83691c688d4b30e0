use teleddns::addr::{IpAddress, Ipv4Address, Ipv6Address};

#[test]
fn v4_text_is_dotted_decimal() {
    assert_eq!(Ipv4Address::new(192, 168, 1, 10).to_text(), "192.168.1.10");
    assert_eq!(Ipv4Address::new(0, 0, 0, 0).to_text(), "0.0.0.0");
    assert_eq!(Ipv4Address::new(255, 255, 255, 255).to_text(), "255.255.255.255");
    assert_eq!(Ipv4Address::new(10, 100, 9, 99).to_text(), "10.100.9.99");
}

#[test]
fn v6_text_compresses_the_leftmost_longest_zero_run() {
    assert_eq!(Ipv6Address::new([0, 0, 0, 0, 0, 0, 0, 0]).to_text(), "::");
    assert_eq!(Ipv6Address::new([0, 0, 0, 0, 0, 0, 0, 1]).to_text(), "::1");
    assert_eq!(Ipv6Address::new([0x2001, 0xdb8, 0, 0, 0, 0, 0, 1]).to_text(), "2001:db8::1");
    assert_eq!(Ipv6Address::new([0xfe80, 0, 0, 0, 0x1234, 0, 0, 0xabcd]).to_text(), "fe80::1234:0:0:abcd");
    assert_eq!(Ipv6Address::new([1, 0, 0, 2, 0, 0, 3, 4]).to_text(), "1::2:0:0:3:4");
    assert_eq!(Ipv6Address::new([1, 0, 2, 0, 3, 0, 4, 0]).to_text(), "1:0:2:0:3:0:4:0");
    assert_eq!(Ipv6Address::new([1, 2, 3, 4, 5, 6, 0, 0]).to_text(), "1:2:3:4:5:6::");
    assert_eq!(Ipv6Address::new([0xffff, 0xffff, 0xffff, 0xffff, 0xffff, 0xffff, 0xffff, 0xffff]).to_text(),
        "ffff:ffff:ffff:ffff:ffff:ffff:ffff:ffff");
    assert_eq!(Ipv6Address::new([0x10, 0x100, 0x1000, 0xa, 0xab, 0xabc, 0xabcd, 0xf0f]).to_text(),
        "10:100:1000:a:ab:abc:abcd:f0f");
}

#[test]
fn v6_text_of_mapped_address_ends_in_dotted_decimal() {
    assert_eq!(Ipv6Address::new([0, 0, 0, 0, 0, 0xffff, 0xc000, 0x0201]).to_text(), "::ffff:192.0.2.1");
    assert_eq!(IpAddress::V6(Ipv6Address::new([0, 0, 0, 0, 0, 0xffff, 0, 0])).to_text(), "::ffff:0.0.0.0");
}

#[test]
fn v6_text_of_zero_runs_of_every_shape() {
    assert_eq!(Ipv6Address::new([0, 0, 1, 0, 0, 0, 1, 0]).to_text(), "0:0:1::1:0");
    assert_eq!(Ipv6Address::new([0, 0, 1, 0, 0, 1, 0, 0]).to_text(), "::1:0:0:1:0:0");
    assert_eq!(Ipv6Address::new([1, 0, 0, 0, 0, 0, 0, 0]).to_text(), "1::");
    assert_eq!(Ipv6Address::new([0, 1, 0, 0, 0, 0, 0, 0]).to_text(), "0:1::");
    assert_eq!(Ipv6Address::new([0, 0, 0, 0, 0, 0, 1, 0]).to_text(), "::1:0");
    assert_eq!(Ipv6Address::new([1, 0, 0, 1, 0, 0, 0, 1]).to_text(), "1:0:0:1::1");
    assert_eq!(Ipv6Address::new([1, 0, 0, 0, 1, 0, 0, 1]).to_text(), "1::1:0:0:1");
    assert_eq!(Ipv6Address::new([1, 1, 1, 1, 1, 1, 1, 0]).to_text(), "1:1:1:1:1:1:1:0");
    assert_eq!(Ipv6Address::new([0, 1, 1, 1, 1, 1, 1, 1]).to_text(), "0:1:1:1:1:1:1:1");
    assert_eq!(Ipv6Address::new([0, 0, 0, 0, 0, 0xfffe, 0xc000, 0x0201]).to_text(), "::fffe:c000:201");
    assert_eq!(Ipv6Address::new([0, 0, 0, 0, 0, 0, 0xc000, 0x0201]).to_text(), "::c000:201");
    assert_eq!(Ipv6Address::new([0, 0, 0, 0, 0, 0xffff, 0xffff, 0xffff]).to_text(), "::ffff:255.255.255.255");
    assert_eq!(Ipv6Address::new([0, 0, 0, 0, 1, 0xffff, 0xc000, 0x0201]).to_text(), "::1:ffff:c000:201");
}

#[test]
fn address_of_either_family_has_the_text_of_its_family() {
    assert_eq!(IpAddress::V4(Ipv4Address::new(198, 18, 0, 1)).to_text(), "198.18.0.1");
    assert_eq!(IpAddress::V6(Ipv6Address::new([0xfd00, 0, 0, 0, 0, 0, 0, 0x10])).to_text(), "fd00::10");
}
