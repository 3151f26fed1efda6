use rafthttp::id::{IDSlice, ID};
use rafthttp::order::sort_vec;
use rafthttp::text::{
    contains, ends_with, parse_u64_radix, starts_with, str_le, trim, trim_end_str, u64_to_decimal,
    u64_to_radix,
};
use std::str::FromStr;

#[test]
fn id_to_string_is_decimal() {
    assert_eq!(ID::new(0).to_string(), "0");
    assert_eq!(ID::new(255).to_string(), "255");
    assert_eq!(ID::new(u64::MAX).to_string(), "18446744073709551615");
}

#[test]
fn id_hex_round_trip() {
    let id = ID::new(0x8e9e05c52164694d);
    assert_eq!(id.to_lower_hex(), "8e9e05c52164694d");
    assert_eq!(ID::from_str(&id.to_lower_hex()).unwrap(), id);
    assert_eq!(ID::from_str("FF").unwrap(), ID::new(255));
    assert!(ID::from_str("").is_err());
    assert!(ID::from_str("xyz").is_err());
    assert!(ID::from_str("10000000000000000").is_err());
    assert_eq!(ID::from_hex("+1f").unwrap().get(), 31);
    assert!(ID::from_hex("-1").is_err());
}

#[test]
fn id_slice_sorts() {
    let mut s = IDSlice(vec![ID::new(3), ID::new(1), ID::new(2), ID::new(1)]);
    s.sort();
    assert_eq!(s.0, vec![ID::new(1), ID::new(1), ID::new(2), ID::new(3)]);
}

#[test]
fn strings_sort_like_std() {
    let v: Vec<String> = vec!["xyz", "abc", "ab", "def", "b"].into_iter().map(String::from).collect();
    let mut want = v.clone();
    want.sort();
    assert_eq!(sort_vec(v), want);
}

#[test]
fn numerals() {
    assert_eq!(u64_to_decimal(1024), "1024");
    assert_eq!(u64_to_radix(255, 16), "ff");
    assert_eq!(u64_to_radix(5, 2), "101");
    assert_eq!(parse_u64_radix("300", 10), Some(300));
    assert_eq!(parse_u64_radix("+7", 10), Some(7));
    assert_eq!(parse_u64_radix("-7", 10), None);
    assert_eq!(parse_u64_radix("+", 10), None);
    assert_eq!(parse_u64_radix("18446744073709551616", 10), None);
    assert_eq!(parse_u64_radix("18446744073709551615", 10), Some(u64::MAX));
    for (n, r) in [(0u64, 10u32), (7, 2), (255, 16), (u64::MAX, 16), (u64::MAX, 36), (12345, 8)] {
        assert_eq!(parse_u64_radix(&u64_to_radix(n, r as u64), r), Some(n));
    }
}

#[test]
fn string_helpers() {
    assert!(ends_with("a.snap", ".snap"));
    assert!(!ends_with("snap", ".snap"));
    assert!(starts_with("db.tmp.1", "db.tmp"));
    assert!(str_le("ab", "abc"));
    assert!(!str_le("b", "abc"));
    assert_eq!(trim("  \t http://x:1 \n"), "http://x:1");
    assert_eq!(trim_end_str("abc \r\n"), "abc");
    assert_eq!(trim("   "), "");
}

#[test]
fn contains_finds_substrings() {
    assert!(contains("hello world", "lo w"));
    assert!(contains("hello", ""));
    assert!(contains("", ""));
    assert!(!contains("hello", "hello!"));
    assert!(!contains("abcab", "ba"));
    assert!(contains("abcab", "cab"));
}
