use ipgeo::ip::IpAddress;
use ipgeo::ip::is_private_ip;
use ipgeo::ip::private_block_label;
use ipgeo::ip_format::format_ip;
use ipgeo::ip_format::network_prefix;
use ipgeo::ip_text::parse_ip;

fn v4(a: u8, b: u8, c: u8, d: u8) -> IpAddress {
    IpAddress::V4 { a, b, c, d }
}

fn v6(s: [u16; 8]) -> IpAddress {
    IpAddress::V6 {
        s0: s[0],
        s1: s[1],
        s2: s[2],
        s3: s[3],
        s4: s[4],
        s5: s[5],
        s6: s[6],
        s7: s[7],
    }
}

#[test]
fn parse_v4_basic() {
    assert_eq!(parse_ip("203.0.113.5"), Some(v4(203, 0, 113, 5)));
    assert_eq!(parse_ip("1.1.1.1"), Some(v4(1, 1, 1, 1)));
    assert_eq!(parse_ip("0.0.0.0"), Some(v4(0, 0, 0, 0)));
    assert_eq!(parse_ip("255.255.255.255"), Some(v4(255, 255, 255, 255)));
}

#[test]
fn parse_v4_rejects_malformed() {
    assert_eq!(parse_ip("256.1.1.1"), None);
    assert_eq!(parse_ip("1.2.3"), None);
    assert_eq!(parse_ip("1.2.3.4.5"), None);
    assert_eq!(parse_ip("01.2.3.4"), None);
    assert_eq!(parse_ip("1.2.3."), None);
    assert_eq!(parse_ip(""), None);
    assert_eq!(parse_ip("a.b.c.d"), None);
    assert_eq!(parse_ip("1.2.3.4 "), None);
}

#[test]
fn parse_v6_basic() {
    assert_eq!(parse_ip("::"), Some(v6([0, 0, 0, 0, 0, 0, 0, 0])));
    assert_eq!(parse_ip("::1"), Some(v6([0, 0, 0, 0, 0, 0, 0, 1])));
    assert_eq!(
        parse_ip("2001:db8::1"),
        Some(v6([0x2001, 0xdb8, 0, 0, 0, 0, 0, 1]))
    );
    assert_eq!(
        parse_ip("1:2:3:4:5:6:7:8"),
        Some(v6([1, 2, 3, 4, 5, 6, 7, 8]))
    );
    assert_eq!(parse_ip("fe80::1"), Some(v6([0xfe80, 0, 0, 0, 0, 0, 0, 1])));
    assert_eq!(parse_ip("1::"), Some(v6([1, 0, 0, 0, 0, 0, 0, 0])));
    assert_eq!(parse_ip("FFFF::abcd"), Some(v6([0xffff, 0, 0, 0, 0, 0, 0, 0xabcd])));
}

#[test]
fn parse_v6_rejects_malformed() {
    assert_eq!(parse_ip("1::2::3"), None);
    assert_eq!(parse_ip(":::"), None);
    assert_eq!(parse_ip("12345::"), None);
    assert_eq!(parse_ip("1:2:3:4:5:6:7"), None);
    assert_eq!(parse_ip("1:2:3:4:5:6:7:8:9"), None);
    assert_eq!(parse_ip("1:2:3:4:5:6:7::8"), None);
    assert_eq!(parse_ip("g::1"), None);
    assert_eq!(parse_ip(":"), None);
}

#[test]
fn format_v4_exact() {
    assert_eq!(format_ip(&v4(1, 2, 3, 4)), "1.2.3.4");
    assert_eq!(format_ip(&v4(255, 0, 10, 100)), "255.0.10.100");
}

#[test]
fn format_v6_compression() {
    assert_eq!(format_ip(&v6([0, 0, 0, 0, 0, 0, 0, 1])), "::1");
    assert_eq!(format_ip(&v6([0, 0, 0, 0, 0, 0, 0, 0])), "::");
    assert_eq!(format_ip(&v6([0x2001, 0xdb8, 0, 0, 0, 0, 0, 1])), "2001:db8::1");
    assert_eq!(format_ip(&v6([1, 2, 3, 4, 5, 6, 7, 8])), "1:2:3:4:5:6:7:8");
    assert_eq!(format_ip(&v6([1, 0, 2, 3, 4, 5, 6, 7])), "1:0:2:3:4:5:6:7");
    assert_eq!(format_ip(&v6([1, 0, 0, 2, 0, 0, 0, 3])), "1:0:0:2::3");
    assert_eq!(format_ip(&v6([1, 0, 0, 0, 0, 0, 0, 0])), "1::");
}

#[test]
fn format_then_parse_round_trip() {
    let cases = [
        v4(8, 8, 8, 8),
        v4(0, 0, 0, 0),
        v6([0, 0, 0, 0, 0, 0, 0, 1]),
        v6([0x2001, 0xdb8, 0, 0x42, 0, 0, 0, 1]),
        v6([1, 2, 3, 4, 5, 6, 7, 8]),
    ];
    for ip in cases {
        assert_eq!(parse_ip(&format_ip(&ip)), Some(ip));
    }
}

#[test]
fn network_prefix_exact() {
    assert_eq!(network_prefix(&v4(1, 1, 1, 1)), "1.1.0.0/16");
    assert_eq!(network_prefix(&v4(93, 184, 216, 34)), "93.184.0.0/16");
    assert_eq!(
        network_prefix(&v6([0x2001, 0xdb8, 1, 2, 3, 4, 5, 6])),
        "2001:db8::/32"
    );
}

#[test]
fn private_v4_ranges() {
    assert!(is_private_ip(&v4(10, 0, 0, 1)));
    assert!(is_private_ip(&v4(172, 16, 0, 1)));
    assert!(is_private_ip(&v4(172, 31, 255, 255)));
    assert!(!is_private_ip(&v4(172, 32, 0, 1)));
    assert!(is_private_ip(&v4(192, 168, 1, 1)));
    assert!(is_private_ip(&v4(127, 0, 0, 1)));
    assert!(is_private_ip(&v4(169, 254, 0, 1)));
    assert!(is_private_ip(&v4(0, 0, 0, 0)));
    assert!(is_private_ip(&v4(255, 255, 255, 255)));
    assert!(is_private_ip(&v4(192, 0, 2, 1)));
    assert!(is_private_ip(&v4(198, 51, 100, 7)));
    assert!(is_private_ip(&v4(203, 0, 113, 5)));
    assert!(!is_private_ip(&v4(8, 8, 8, 8)));
    assert!(!is_private_ip(&v4(1, 1, 1, 1)));
}

#[test]
fn private_v6_ranges() {
    assert!(is_private_ip(&v6([0, 0, 0, 0, 0, 0, 0, 1])));
    assert!(is_private_ip(&v6([0, 0, 0, 0, 0, 0, 0, 0])));
    assert!(is_private_ip(&v6([0xfe80, 0, 0, 0, 0, 0, 0, 1])));
    assert!(is_private_ip(&v6([0xfebf, 0, 0, 0, 0, 0, 0, 1])));
    assert!(!is_private_ip(&v6([0xfec0, 0, 0, 0, 0, 0, 0, 1])));
    assert!(is_private_ip(&v6([0xfc00, 0, 0, 0, 0, 0, 0, 1])));
    assert!(is_private_ip(&v6([0xfdff, 0, 0, 0, 0, 0, 0, 1])));
    assert!(!is_private_ip(&v6([0x2001, 0xdb8, 0, 0, 0, 0, 0, 1])));
}

#[test]
fn private_block_labels() {
    assert_eq!(private_block_label(&v4(127, 0, 0, 1)), "127.0.0.0/8");
    assert_eq!(private_block_label(&v4(10, 1, 2, 3)), "10.0.0.0/8");
    assert_eq!(private_block_label(&v4(172, 20, 0, 1)), "172.16.0.0/12");
    assert_eq!(private_block_label(&v4(192, 168, 0, 1)), "192.168.0.0/16");
    assert_eq!(private_block_label(&v4(169, 254, 3, 4)), "169.254.0.0/16");
    assert_eq!(private_block_label(&v4(192, 0, 2, 1)), "private");
    assert_eq!(private_block_label(&v6([0xfe80, 0, 0, 0, 0, 0, 0, 1])), "fe80::/10");
    assert_eq!(private_block_label(&v6([0xfc00, 0, 0, 0, 0, 0, 0, 1])), "fc00::/7");
    assert_eq!(private_block_label(&v6([0, 0, 0, 0, 0, 0, 0, 1])), "private");
}
