use reet::text::{
    chars_of, drop_suffix, ends_with, parse_bool, parse_u32, parse_u64, same, starts_with,
};

#[test]
fn chars_come_in_order() {
    assert_eq!(chars_of("abc"), vec!['a', 'b', 'c']);
    assert_eq!(chars_of(""), Vec::<char>::new());
    assert_eq!(chars_of("é1"), vec!['é', '1']);
}

#[test]
fn same_compares_whole_texts() {
    assert!(same("", ""));
    assert!(same("abc", "abc"));
    assert!(!same("abc", "abd"));
    assert!(!same("abc", "ab"));
    assert!(!same("ab", "abc"));
}

#[test]
fn starts_with_tests_the_beginning() {
    assert!(starts_with("REET_ZONE_ID", "REET"));
    assert!(starts_with("REET", "REET"));
    assert!(starts_with("REET", ""));
    assert!(!starts_with("REE", "REET"));
    assert!(!starts_with("XREET_ZONE_ID", "REET"));
}

#[test]
fn ends_with_tests_the_end() {
    assert!(ends_with("REET_FOO_NAME", "_NAME"));
    assert!(ends_with("_NAME", "_NAME"));
    assert!(ends_with("anything", ""));
    assert!(!ends_with("NAME", "_NAME"));
    assert!(!ends_with("REET_FOO_NAME_", "_NAME"));
}

#[test]
fn drop_suffix_takes_the_suffix_off_once() {
    assert_eq!(drop_suffix("REET_FOO_NAME", "_NAME"), "REET_FOO");
    assert_eq!(drop_suffix("REET_FOO_NAME_NAME", "_NAME"), "REET_FOO_NAME");
    assert_eq!(drop_suffix("REET_FOO_IP", "_NAME"), "REET_FOO_IP");
    assert_eq!(drop_suffix("_NAME", "_NAME"), "");
    assert_eq!(drop_suffix("NAME", "_NAME"), "NAME");
    assert_eq!(drop_suffix("", "_NAME"), "");
    assert_eq!(drop_suffix("abc", ""), "abc");
    assert_eq!(drop_suffix("_NAME_FOO", "_NAME"), "_NAME_FOO");
    assert_eq!(drop_suffix("é_NAME", "_NAME"), "é");
}

#[test]
fn parse_u64_reads_decimal_numbers() {
    assert_eq!(parse_u64("0"), Some(0));
    assert_eq!(parse_u64("10"), Some(10));
    assert_eq!(parse_u64("+10"), Some(10));
    assert_eq!(parse_u64("007"), Some(7));
    assert_eq!(parse_u64("18446744073709551615"), Some(u64::MAX));
    assert_eq!(parse_u64("18446744073709551616"), None);
    assert_eq!(parse_u64("99999999999999999999"), None);
    assert_eq!(parse_u64(""), None);
    assert_eq!(parse_u64("+"), None);
    assert_eq!(parse_u64("-1"), None);
    assert_eq!(parse_u64("++1"), None);
    assert_eq!(parse_u64("1 "), None);
    assert_eq!(parse_u64(" 1"), None);
    assert_eq!(parse_u64("12a"), None);
    assert_eq!(parse_u64("1+"), None);
}

#[test]
fn parse_u64_agrees_with_the_standard_parser() {
    for s in [
        "0", "1", "+1", "-1", "", "+", "00", "120", "4294967295", "4294967296",
        "18446744073709551615", "18446744073709551616", "1e3", "0x10", "١٢", "12 ",
    ] {
        assert_eq!(parse_u64(s), s.parse::<u64>().ok());
        assert_eq!(parse_u32(s), s.parse::<u32>().ok());
    }
}

#[test]
fn parse_u32_stops_at_its_largest_value() {
    assert_eq!(parse_u32("120"), Some(120));
    assert_eq!(parse_u32("4294967295"), Some(u32::MAX));
    assert_eq!(parse_u32("4294967296"), None);
    assert_eq!(parse_u32("18446744073709551616"), None);
    assert_eq!(parse_u32("abc"), None);
}

#[test]
fn parse_bool_reads_the_two_flags_only() {
    assert_eq!(parse_bool("true"), Some(true));
    assert_eq!(parse_bool("false"), Some(false));
    assert_eq!(parse_bool("True"), None);
    assert_eq!(parse_bool("1"), None);
    assert_eq!(parse_bool(""), None);
    assert_eq!(parse_bool("true "), None);
}

#[test]
fn the_tests_on_names_agree_with_the_standard_ones() {
    let texts = ["", "_NAME", "REET_FOO_NAME", "REET_FOO_NAME_NAME", "NAME_", "é_NAME", "ab", "aab"];
    let patterns = ["", "_NAME", "REET", "NAME", "ab", "é", "b", "REET_FOO_NAME_NAME_"];
    for s in texts {
        for p in patterns {
            assert_eq!(starts_with(s, p), s.starts_with(p));
            assert_eq!(ends_with(s, p), s.ends_with(p));
            assert_eq!(drop_suffix(s, p), s.strip_suffix(p).unwrap_or(s));
            assert_eq!(same(s, p), s == p);
        }
    }
}

#[test]
fn parse_bool_agrees_with_the_standard_parser() {
    for s in ["true", "false", "", "TRUE", "t", "0", "1", " true", "falsee"] {
        assert_eq!(parse_bool(s), s.parse::<bool>().ok());
    }
}
