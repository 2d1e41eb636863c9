use ipgeo::client_ip::Header;
use ipgeo::client_ip::get_real_ip;
use ipgeo::client_ip::parse_forwarded_header;
use ipgeo::errors::IpGeoError;
use ipgeo::host::HostQuery;
use ipgeo::host::check_host;
use ipgeo::host::is_valid_domain;
use ipgeo::host::pick_address;
use ipgeo::ip::IpAddress;

fn v4(a: u8, b: u8, c: u8, d: u8) -> IpAddress {
    IpAddress::V4 { a, b, c, d }
}

fn v6(s: [u16; 8]) -> IpAddress {
    IpAddress::V6 {
        s0: s[0],
        s1: s[1],
        s2: s[2],
        s3: s[3],
        s4: s[4],
        s5: s[5],
        s6: s[6],
        s7: s[7],
    }
}

fn header(name: &str, value: &str) -> Header {
    Header { name: name.to_string(), value: value.to_string() }
}

const CDN_HEADERS: [&str; 6] = [
    "CF-Connecting-IP",
    "Fastly-Client-IP",
    "X-Azure-ClientIP",
    "X-Akamai-Client-IP",
    "True-Client-IP",
    "X-CDN-Src-IP",
];

#[test]
fn cdn_header_with_private_value_falls_through() {
    let peer = v4(9, 9, 9, 9);
    for name in CDN_HEADERS {
        let headers = vec![header(name, "10.0.0.1")];
        assert_eq!(get_real_ip(&headers, &peer), peer, "header {}", name);
    }
}

#[test]
fn cdn_header_with_public_value_wins() {
    let peer = v4(9, 9, 9, 9);
    for name in CDN_HEADERS {
        let headers = vec![header(name, "1.2.3.4")];
        assert_eq!(get_real_ip(&headers, &peer), v4(1, 2, 3, 4), "header {}", name);
    }
}

#[test]
fn cdn_value_is_trimmed_and_case_insensitive() {
    let peer = v4(9, 9, 9, 9);
    let headers = vec![header("cf-connecting-ip", "  1.2.3.4  ")];
    assert_eq!(get_real_ip(&headers, &peer), v4(1, 2, 3, 4));
}

#[test]
fn cdn_precedence_over_real_ip() {
    let peer = v4(9, 9, 9, 9);
    let headers = vec![
        header("X-Real-IP", "5.5.5.5"),
        header("CF-Connecting-IP", "1.2.3.4"),
    ];
    assert_eq!(get_real_ip(&headers, &peer), v4(1, 2, 3, 4));
}

#[test]
fn real_ip_used_when_no_cdn_header() {
    let peer = v4(9, 9, 9, 9);
    let headers = vec![header("X-Real-IP", "5.5.5.5")];
    assert_eq!(get_real_ip(&headers, &peer), v4(5, 5, 5, 5));
}

#[test]
fn forwarded_for_first_entry_wins() {
    let peer = v4(9, 9, 9, 9);
    let headers = vec![header("X-Forwarded-For", "93.184.216.34, 10.0.0.1")];
    assert_eq!(get_real_ip(&headers, &peer), v4(93, 184, 216, 34));
}

#[test]
fn forwarded_for_first_entry_private_falls_through() {
    let peer = v4(9, 9, 9, 9);
    let headers = vec![header("X-Forwarded-For", "10.0.0.1, 93.184.216.34")];
    assert_eq!(get_real_ip(&headers, &peer), peer);
}

#[test]
fn forwarded_header_for_directive() {
    let peer = v4(9, 9, 9, 9);
    let headers = vec![header("Forwarded", "proto=https;for=\"93.184.216.34\";by=203.0.113.43")];
    assert_eq!(get_real_ip(&headers, &peer), v4(93, 184, 216, 34));
}

#[test]
fn forwarded_header_bracketed_v6() {
    let token = parse_forwarded_header("for=\"[2001:4860:4860::8888]\";proto=https").unwrap();
    assert_eq!(token, "2001:4860:4860::8888");
    let peer = v4(9, 9, 9, 9);
    let headers = vec![header("Forwarded", "for=\"[2001:4860:4860::8888]\"")];
    assert_eq!(
        get_real_ip(&headers, &peer),
        v6([0x2001, 0x4860, 0x4860, 0, 0, 0, 0, 0x8888])
    );
}

#[test]
fn peer_returned_even_when_private() {
    let peer = v4(192, 168, 1, 10);
    let headers: Vec<Header> = Vec::new();
    assert_eq!(get_real_ip(&headers, &peer), peer);
}

#[test]
fn unparseable_header_values_are_absent() {
    let peer = v4(9, 9, 9, 9);
    let headers = vec![
        header("CF-Connecting-IP", "not-an-ip"),
        header("X-Real-IP", ""),
        header("X-Forwarded-For", "garbage, 1.2.3.4"),
    ];
    assert_eq!(get_real_ip(&headers, &peer), peer);
}

#[test]
fn host_rejects_reserved_literals() {
    for bad in ["0.0.0.0", "255.255.255.255", "192.0.2.1", "198.51.100.9", "203.0.113.77", "::", "2001:db8::1"] {
        let r = check_host(bad);
        assert!(
            matches!(r, Err(IpGeoError::InvalidInput(ref m)) if m == bad),
            "expected invalid input for {}",
            bad
        );
    }
}

#[test]
fn host_accepts_public_literal_without_dns() {
    let r = check_host("8.8.8.8");
    assert!(matches!(r, Ok(HostQuery::Resolved(ip)) if ip == v4(8, 8, 8, 8)));
    let r6 = check_host("2606:4700::1111");
    assert!(matches!(r6, Ok(HostQuery::Resolved(_))));
}

#[test]
fn host_invalid_domain_rejected() {
    for bad in ["not..a..valid..host", "-example.com", "example.com-", ".example.com", "nodots", "123.456", "exa mple.com"] {
        let r = check_host(bad);
        assert!(
            matches!(r, Err(IpGeoError::InvalidInput(ref m)) if m == bad),
            "expected invalid input for {}",
            bad
        );
    }
}

#[test]
fn host_valid_domain_needs_dns() {
    for good in ["example.com", "a.b", "xn--j6w193g.example", "my-host.example.org"] {
        let r = check_host(good);
        assert!(matches!(r, Ok(HostQuery::NeedsDns)), "expected domain for {}", good);
    }
}

#[test]
fn domain_syntax_rules() {
    assert!(is_valid_domain("example.com"));
    assert!(!is_valid_domain(""));
    assert!(!is_valid_domain("example"));
    assert!(!is_valid_domain("127.0.0"));
    let long_label = format!("{}.com", "a".repeat(64));
    assert!(!is_valid_domain(&long_label));
    let ok_label = format!("{}.com", "a".repeat(63));
    assert!(is_valid_domain(&ok_label));
    let too_long = format!("{}.com", "a.".repeat(130));
    assert!(!is_valid_domain(&too_long));
}

#[test]
fn pick_address_prefers_first_v4() {
    let a6 = v6([0x2001, 0, 0, 0, 0, 0, 0, 1]);
    let b4 = v4(1, 2, 3, 4);
    let c4 = v4(5, 6, 7, 8);
    assert_eq!(pick_address(&vec![a6, b4, c4]), Some(b4));
    assert_eq!(pick_address(&vec![b4, a6]), Some(b4));
}

#[test]
fn pick_address_falls_back_to_first_v6() {
    let a6 = v6([0x2001, 0, 0, 0, 0, 0, 0, 1]);
    let b6 = v6([0x2001, 0, 0, 0, 0, 0, 0, 2]);
    assert_eq!(pick_address(&vec![a6, b6]), Some(a6));
    assert_eq!(pick_address(&Vec::new()), None);
}

#[test]
fn forwarded_used_when_forwarded_for_is_private() {
    let peer = v4(9, 9, 9, 9);
    let headers = vec![
        header("X-Forwarded-For", "10.0.0.1"),
        header("Forwarded", "for=93.184.216.34"),
    ];
    assert_eq!(get_real_ip(&headers, &peer), v4(93, 184, 216, 34));
}

#[test]
fn cdn_header_with_v6_value() {
    let peer = v4(9, 9, 9, 9);
    let headers = vec![header("CF-Connecting-IP", "2606:4700::1111")];
    assert_eq!(
        get_real_ip(&headers, &peer),
        v6([0x2606, 0x4700, 0, 0, 0, 0, 0, 0x1111])
    );
}
