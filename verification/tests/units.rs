use ip_allowlist::address::parse_network;
use ip_allowlist::calendar::civil_time;
use ip_allowlist::calendar::rfc3339;
use ip_allowlist::calendar::rfc3339_of_reading;
use ip_allowlist::default_ip_header;
use ip_allowlist::epoch_to_ymdhms;
use ip_allowlist::glob_match;
use ip_allowlist::normalize_mapped_ipv4;
use ip_allowlist::plugin::choose_address;
use ip_allowlist::rfc3339_now;
use ip_allowlist::text::decimal;
use ip_allowlist::text::first_hop;
use ip_allowlist::text::padded;
use ip_allowlist::IpAddr;
use ip_allowlist::IpAllowlistPlugin;
use ip_allowlist::Network;

#[test]
fn default_header_is_x_forwarded_for() {
    assert_eq!(default_ip_header(), "x-forwarded-for");
}

#[test]
fn numbers_in_decimal() {
    assert_eq!(decimal(0), "0");
    assert_eq!(decimal(9), "9");
    assert_eq!(decimal(10), "10");
    assert_eq!(decimal(1_234_567_890), "1234567890");
    assert_eq!(decimal(u128::MAX), "340282366920938463463374607431768211455");
    assert_eq!(padded(7, 2), format!("{:02}", 7));
    assert_eq!(padded(-5, 4), format!("{:04}", -5));
    assert_eq!(padded(12345, 4), format!("{:04}", 12345));
    assert_eq!(padded(i64::MIN, 4), format!("{:04}", i64::MIN));
}

#[test]
fn first_hop_of_a_header() {
    assert_eq!(first_hop("10.1.2.3, 192.168.1.1"), "10.1.2.3");
    assert_eq!(first_hop("10.1.2.3"), "10.1.2.3");
    assert_eq!(first_hop(",10.1.2.3"), "");
    assert_eq!(first_hop(""), "");
    assert_eq!(first_hop("\u{e9}\u{4e2d},x"), "\u{e9}\u{4e2d}");
}

#[test]
fn globs() {
    assert!(glob_match("*", ""));
    assert!(glob_match("*", "anything at all"));
    assert!(glob_match("admin.*", "admin.delete"));
    assert!(glob_match("admin.*", "admin."));
    assert!(!glob_match("admin.*", "admin"));
    assert!(!glob_match("admin.*", "user.admin.delete"));
    assert!(glob_match("*.delete", "admin.delete"));
    assert!(glob_match("a*b*c", "a--b--b--c"));
    assert!(!glob_match("a*b*c", "a--c--b"));
    assert!(glob_match("?", "x"));
    assert!(glob_match("?", "\u{4e2d}"));
    assert!(!glob_match("?", ""));
    assert!(!glob_match("?", "xy"));
    assert!(glob_match("to?l", "tool"));
    assert!(!glob_match("to?l", "tol"));
    assert!(glob_match("", ""));
    assert!(!glob_match("", "x"));
    assert!(!glob_match("Tool", "tool"));
    assert!(glob_match("[a]", "[a]"));
    assert!(!glob_match("[a]", "a"));
    assert!(glob_match("**a", "bba"));
}

#[test]
fn dates_of_clock_readings() {
    assert_eq!(epoch_to_ymdhms(0), (1970, 1, 1, 0, 0, 0));
    assert_eq!(epoch_to_ymdhms(-1), (1969, 12, 31, 23, 59, 59));
    assert_eq!(epoch_to_ymdhms(951_782_400), (2000, 2, 29, 0, 0, 0));
    assert_eq!(epoch_to_ymdhms(951_868_799), (2000, 2, 29, 23, 59, 59));
    assert_eq!(epoch_to_ymdhms(951_868_800), (2000, 3, 1, 0, 0, 0));
    assert_eq!(epoch_to_ymdhms(1_700_000_000), (2023, 11, 14, 22, 13, 20));
    assert_eq!(epoch_to_ymdhms(4_107_542_399), (2100, 2, 28, 23, 59, 59));
    assert_eq!(epoch_to_ymdhms(4_107_542_400), (2100, 3, 1, 0, 0, 0));
    assert_eq!(epoch_to_ymdhms(-62_167_219_200), (0, 1, 1, 0, 0, 0));
    assert_eq!(epoch_to_ymdhms(-62_135_596_800), (1, 1, 1, 0, 0, 0));
    assert_eq!(epoch_to_ymdhms(253_402_300_799), (9999, 12, 31, 23, 59, 59));
    assert_eq!(epoch_to_ymdhms(67_767_976_233_532_799), (i32::MAX, 12, 31, 23, 59, 59));
    assert_eq!(epoch_to_ymdhms(-67_768_100_567_971_200), (i32::MIN, 1, 1, 0, 0, 0));
}

#[test]
fn dates_follow_one_another() {
    let mut yesterday = civil_time(-800_000 * 86_400);
    for day in -799_999..800_000i64 {
        let today = civil_time(day * 86_400);
        if today.2 == 1 {
            assert!(yesterday.2 >= 28);
            assert!(today.1 == yesterday.1 + 1 || today.1 == 1 && yesterday.1 == 12);
        } else {
            assert_eq!((today.0, today.1, today.2), (yesterday.0, yesterday.1, yesterday.2 + 1));
        }
        yesterday = today;
    }
    let last = civil_time(i64::MAX);
    assert!(last.0 > i32::MAX as i64);
    let first = civil_time(i64::MIN);
    assert!(first.0 < i32::MIN as i64);
}

#[test]
fn timestamps() {
    assert_eq!(rfc3339(0, 0), "1970-01-01T00:00:00.000Z");
    assert_eq!(rfc3339(1_700_000_000, 7), "2023-11-14T22:13:20.007Z");
    assert_eq!(rfc3339(-62_167_219_201, 999), "-001-12-31T23:59:59.999Z");
    assert_eq!(rfc3339(253_402_300_799, 45), "9999-12-31T23:59:59.045Z");
    assert_eq!(rfc3339_of_reading(None), "1970-01-01T00:00:00.000Z");
    assert_eq!(rfc3339_of_reading(Some((951_782_400, 120))), "2000-02-29T00:00:00.120Z");
}

#[test]
fn timestamps_sort_by_time() {
    // Each reading differs from the one before it in another field first.
    let readings: [(u64, u32); 10] = [
        (0, 0),
        (0, 9),
        (0, 10),
        (9, 0),
        (59, 999),
        (60, 0),
        (3_600, 0),
        (86_400, 0),
        (951_782_400, 120),
        (253_402_300_799, 999),
    ];
    for pair in readings.windows(2) {
        let earlier = rfc3339_of_reading(Some(pair[0]));
        let later = rfc3339_of_reading(Some(pair[1]));
        assert!(earlier < later, "{earlier} {later}");
    }
    // A year of five digits ends the order.
    let last = rfc3339_of_reading(Some((253_402_300_799, 999)));
    let next = rfc3339_of_reading(Some((253_402_300_800, 0)));
    assert_eq!(next, "10000-01-01T00:00:00.000Z");
    assert!(next < last);
}

#[test]
fn the_present_is_a_timestamp() {
    let now = rfc3339_now();
    assert_eq!(now.len(), 24);
    let shape: String = now
        .chars()
        .map(|c| if c.is_ascii_digit() { '0' } else { c })
        .collect();
    assert_eq!(shape, "0000-00-00T00:00:00.000Z");
    assert!(now.as_str() > "2020");
}

#[test]
fn mapped_addresses_become_plain() {
    assert_eq!(
        normalize_mapped_ipv4(IpAddr::V6(0xffff_0a00_0001)),
        IpAddr::V4(0x0a00_0001)
    );
    assert_eq!(normalize_mapped_ipv4(IpAddr::V6(0xffff_0000_0000)), IpAddr::V4(0));
    assert_eq!(normalize_mapped_ipv4(IpAddr::V6(0xffff_ffff_ffff)), IpAddr::V4(u32::MAX));
    for other in [0u128, 1, 0x0a00_0001, 0xfffe_ffff_ffff, 0x1_0000_0000_0000, u128::MAX] {
        assert_eq!(normalize_mapped_ipv4(IpAddr::V6(other)), IpAddr::V6(other));
    }
    assert_eq!(normalize_mapped_ipv4(IpAddr::V4(5)), IpAddr::V4(5));
}

#[test]
fn configured_header_is_preferred() {
    let mapped = IpAddr::V6(0xffff_0a00_0001);
    let plain = IpAddr::V4(0x0a00_0001);
    let other = IpAddr::V4(0x0808_0808);
    assert_eq!(choose_address(Some(mapped), Some(other)), Some(plain));
    assert_eq!(choose_address(None, Some(mapped)), Some(plain));
    assert_eq!(choose_address(Some(other), None), Some(other));
    assert_eq!(choose_address(None, None), None);
}

#[test]
fn networks_in_cidr_notation() {
    assert_eq!(
        parse_network("10.1.2.3/8"),
        Ok(Network { addr: IpAddr::V4(0x0a01_0203), prefix_len: 8 })
    );
    assert_eq!(
        parse_network("fd00::1/16"),
        Ok(Network { addr: IpAddr::V6((0xfd00u128 << 112) + 1), prefix_len: 16 })
    );
    for text in ["", "10.0.0.0", "10.0.0.0/33", "::1/129", "10.0.0/8", " 10.0.0.0/8", "x/8"] {
        assert_eq!(parse_network(text), Err("invalid IP address syntax".to_owned()));
    }
}

fn admits(text: &str, ip: IpAddr) -> bool {
    let network = parse_network(text).unwrap();
    IpAllowlistPlugin::with_networks(vec![network], default_ip_header(), Vec::new()).is_allowed(&ip)
}

#[test]
fn networks_are_ranges() {
    // The host bits of a network do not matter.
    assert!(admits("10.1.2.3/8", IpAddr::V4(0x0a00_0000)));
    assert!(admits("10.1.2.3/8", IpAddr::V4(0x0aff_ffff)));
    assert!(!admits("10.1.2.3/8", IpAddr::V4(0x09ff_ffff)));
    assert!(!admits("10.1.2.3/8", IpAddr::V4(0x0b00_0000)));
    assert!(admits("0.0.0.0/0", IpAddr::V4(u32::MAX)));
    assert!(!admits("0.0.0.0/0", IpAddr::V6(0)));
    assert!(admits("8.8.8.8/32", IpAddr::V4(0x0808_0808)));
    assert!(!admits("8.8.8.8/32", IpAddr::V4(0x0808_0809)));
    assert!(admits("::1/128", IpAddr::V6(1)));
    assert!(!admits("::1/128", IpAddr::V6(2)));
    assert!(!admits("::1/128", IpAddr::V4(1)));
    assert!(admits("::/0", IpAddr::V6(u128::MAX)));
    assert!(admits("fd00::/16", IpAddr::V6(0xfd00u128 << 112)));
    assert!(admits("fd00::/16", IpAddr::V6((0xfd01u128 << 112) - 1)));
    assert!(!admits("fd00::/16", IpAddr::V6(0xfd01u128 << 112)));
}
