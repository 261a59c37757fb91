use web_speedtest::ip::{mask_ip_for_public, IpAddr};

fn canonical(input: &str) -> Option<String> {
    IpAddr::parse(input).map(|ip| ip.to_text())
}

#[test]
fn mask_ip_should_keep_ipv4_24_prefix() {
    assert_eq!(mask_ip_for_public("1.2.3.4"), Some("1.2.3.*".to_string()));
}

#[test]
fn mask_ip_should_keep_ipv6_48_prefix_with_compact_suffix() {
    assert_eq!(
        mask_ip_for_public("2001:db8:abcd:1234::1"),
        Some("2001:db8:abcd::*".to_string())
    );
}

#[test]
fn mask_ip_should_convert_ipv4_mapped_ipv6_to_ipv4_mask() {
    assert_eq!(
        mask_ip_for_public("::ffff:192.0.2.33"),
        Some("192.0.2.*".to_string())
    );
}

#[test]
fn mask_ip_should_hide_invalid_input() {
    assert_eq!(mask_ip_for_public("not-an-ip"), None);
}

#[test]
fn mask_ignores_surrounding_white_space() {
    assert_eq!(mask_ip_for_public(" \t10.0.0.255\n"), Some("10.0.0.*".to_string()));
    assert_eq!(mask_ip_for_public(""), None);
    assert_eq!(mask_ip_for_public("   "), None);
}

#[test]
fn mask_hides_the_last_octet_and_the_last_segments() {
    assert_eq!(mask_ip_for_public("1.2.3.4"), mask_ip_for_public("1.2.3.200"));
    assert_eq!(
        mask_ip_for_public("2001:db8:1:2:3:4:5:6"),
        mask_ip_for_public("2001:db8:1::")
    );
    assert_eq!(mask_ip_for_public("::1"), Some("0:0:0::*".to_string()));
}

#[test]
fn ipv4_addresses_are_read_strictly() {
    assert_eq!(canonical("0.0.0.0"), Some("0.0.0.0".to_string()));
    assert_eq!(canonical("255.255.255.255"), Some("255.255.255.255".to_string()));
    for bad in [
        "", "1", "1.2.3", "1.2.3.4.5", "1.2.3.256", "01.2.3.4", "1.2.3.04", "1..3.4", ".1.2.3", "1.2.3.",
        "1.2.3.4 ", " 1.2.3.4", "1.2.3.-4", "+1.2.3.4", "1.2.3.4/8", "0x1.2.3.4",
    ] {
        assert_eq!(canonical(bad), None, "{bad}");
    }
}

#[test]
fn ipv6_addresses_are_read_and_written_canonically() {
    let cases = [
        ("::", "::"),
        ("::1", "::1"),
        ("1::", "1::"),
        ("2001:DB8::0001", "2001:db8::1"),
        ("1:0:0:2:0:0:0:3", "1:0:0:2::3"),
        ("1:0:0:2:3:0:0:4", "1::2:3:0:0:4"),
        ("1:2:3:4:5:6:7:8", "1:2:3:4:5:6:7:8"),
        ("1:0:2:0:3:0:4:0", "1:0:2:0:3:0:4:0"),
        ("::ffff:1.2.3.4", "::ffff:1.2.3.4"),
        ("::ffff:102:304", "::ffff:1.2.3.4"),
        ("::1.2.3.4", "::102:304"),
        ("64:ff9b::1.2.3.4", "64:ff9b::102:304"),
        ("1:2:3:4:5:6:1.2.3.4", "1:2:3:4:5:6:102:304"),
        ("0:0:0:0:0:0:0:0", "::"),
    ];
    for (given, expected) in cases {
        assert_eq!(canonical(given), Some(expected.to_string()), "{given}");
        assert_eq!(canonical(expected), Some(expected.to_string()), "{expected}");
    }
    for bad in [
        ":", ":::", "1:2:3:4:5:6:7", "1:2:3:4:5:6:7:8:9", "1::2::3", "12345::", "g::", "1:2:3:4:5:6:7:1.2.3.4",
        "::1.2.3", "::1%eth0", "[::1]", "1:2:3:4:5:6:7:", ":1:2:3:4:5:6:7", "1.2.3.4::",
    ] {
        assert_eq!(canonical(bad), None, "{bad}");
    }
}

#[test]
fn addresses_keep_their_parts() {
    assert!(matches!(IpAddr::parse("1.2.3.4"), Some(IpAddr::V4([1, 2, 3, 4]))));
    assert!(matches!(IpAddr::parse("::ff"), Some(IpAddr::V6([0, 0, 0, 0, 0, 0, 0, 255]))));
    assert_eq!(IpAddr::V6([0x2001, 0xdb8, 0, 0, 0, 0, 0, 1]).to_text(), "2001:db8::1");
    assert_eq!(IpAddr::V4([10, 20, 30, 40]).masked(), "10.20.30.*");
}

#[test]
fn a_gap_stands_for_at_least_one_segment() {
    assert_eq!(canonical("1:2:3:4:5:6:7::"), Some("1:2:3:4:5:6:7:0".to_string()));
    assert_eq!(canonical("::2:3:4:5:6:7:8"), Some("0:2:3:4:5:6:7:8".to_string()));
    assert_eq!(canonical("::1:2:3:4:5:1.2.3.4"), Some("0:1:2:3:4:5:102:304".to_string()));
    for bad in [
        "1:2:3:4:5:6:7::8", "1::2:3:4:5:6:7:8", "::1:2:3:4:5:6:7:8", "1:2:3:4:5:6:7:8::", "::1:2:3:4:5:6:1.2.3.4",
        "::1.2.3.4:5", "1:2:1.2.3.4",
    ] {
        assert_eq!(canonical(bad), None, "{bad}");
    }
}

#[test]
fn masks_denote_no_address_and_have_no_white_space() {
    for given in ["1.2.3.4", "::ffff:1.2.3.4", "2001:db8::1", "::"] {
        let mask = mask_ip_for_public(given).unwrap();
        assert!(IpAddr::parse(&mask).is_none());
        assert_eq!(mask_ip_for_public(&mask), None);
        let text = canonical(given).unwrap();
        assert!(text.chars().all(|c| c.is_ascii_hexdigit() || c == '.' || c == ':'));
    }
}
