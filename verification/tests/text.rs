use crust::address::{parse_address, parse_ipv4};
use crust::config::Ipv4Address;
use crust::decimal::{decimal_string, parse_u32};
use crust::decompress::{copy_destination, tar_path_for};
use crust::directories::directory_line;
use crust::text::{chars_of, remove_matches, replace_matches, same_text};

#[test]
fn replace_is_left_to_right_and_non_overlapping() {
    assert_eq!(replace_matches("aaa", "aa", "b"), "ba");
    assert_eq!(replace_matches("~/x/~", "~", "/home/u"), "/home/u/x//home/u");
    assert_eq!(replace_matches("", "a", "z"), "");
}

#[test]
fn remove_all_matches() {
    assert_eq!(remove_matches("aabb", "ab"), "ab");
    assert_eq!(remove_matches("x.zst.zst", ".zst"), "x");
    assert_eq!(remove_matches("abc", ""), "abc");
}

#[test]
fn text_helpers() {
    assert_eq!(chars_of("héllo"), vec!['h', 'é', 'l', 'l', 'o']);
    assert!(same_text("abc", "abc"));
    assert!(!same_text("abc", "abd"));
    assert!(!same_text("ab", "abc"));
}

#[test]
fn parse_u32_like_from_str() {
    for s in ["0", "5000", "+7", "007", "4294967295", "", "+", "-1", " 1", "1 ", "4294967296", "99999999999999999999", "12a"] {
        assert_eq!(parse_u32(s), s.parse::<u32>().ok(), "{}", s);
    }
}

#[test]
fn decimal_like_to_string() {
    for n in [0u64, 7, 10, 65535, 4294967295, u64::MAX] {
        assert_eq!(decimal_string(n), n.to_string());
    }
}

#[test]
fn law_parse_decimal_roundtrip() {
    for n in [0u32, 1, 9, 10, 12345, u32::MAX] {
        assert_eq!(parse_u32(&decimal_string(n as u64)), Some(n));
    }
}

#[test]
fn tar_path_drops_zst() {
    assert_eq!(tar_path_for("backup.tar.zst"), "backup.tar");
    assert_eq!(tar_path_for("/a/b.zst/c.tar.zst"), "/a/b/c.tar");
}

#[test]
fn copy_destination_drops_root() {
    assert_eq!(copy_destination("/tmp/crust/t/unpacked/etc/x", "/tmp/crust/t/unpacked"), "/etc/x");
}

#[test]
fn directory_lines() {
    assert_eq!(directory_line("/etc"), ": /etc");
}

#[test]
fn ipv4_addresses() {
    assert_eq!(parse_ipv4("127.0.0.1"), Some(Ipv4Address(127, 0, 0, 1)));
    assert_eq!(parse_ipv4("255.255.255.255"), Some(Ipv4Address(255, 255, 255, 255)));
    assert_eq!(parse_ipv4("0.0.0.0"), Some(Ipv4Address(0, 0, 0, 0)));
    for bad in ["", "1.2.3", "1.2.3.4.5", "256.1.1.1", "01.2.3.4", "1..2.3", "1.2.3.4 ", "+1.2.3.4", "1.2.3.0004", "a.b.c.d", "localhost"] {
        assert_eq!(parse_ipv4(bad), None, "{}", bad);
    }
    assert_eq!(parse_address("localhost"), Some(Ipv4Address(127, 0, 0, 1)));
    assert_eq!(parse_address("10.1.2.3"), Some(Ipv4Address(10, 1, 2, 3)));
    assert_eq!(parse_address("Localhost"), None);
}
