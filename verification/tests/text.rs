use streaming_gif::text::{
    decimal_string, parse_unsigned_decimal, str_eq_ignore_ascii_case, str_equals, str_less,
    str_starts_with, str_strip_repeated_prefix, str_trim,
};

#[test]
fn decimal_notation_of_numbers() {
    assert_eq!(decimal_string(0), "0");
    assert_eq!(decimal_string(7), "7");
    assert_eq!(decimal_string(10), "10");
    assert_eq!(decimal_string(4096), "4096");
    assert_eq!(decimal_string(u64::MAX), "18446744073709551615");
}

#[test]
fn parsing_follows_str_parse_for_unsigned_integers() {
    for text in ["0", "42", "+42", "007", "4294967295", "4294967296", "", "+", "-1", "1 ", " 1", "1a", "٣"] {
        let expected: Option<u32> = text.parse().ok();
        assert_eq!(
            parse_unsigned_decimal(text, u32::MAX as u64).map(|v| v as u32),
            expected,
            "{text:?}"
        );
        let expected64: Option<u64> = text.parse().ok();
        assert_eq!(parse_unsigned_decimal(text, u64::MAX), expected64, "{text:?}");
    }
    assert_eq!(parse_unsigned_decimal("18446744073709551615", u64::MAX), Some(u64::MAX));
    assert_eq!(parse_unsigned_decimal("18446744073709551616", u64::MAX), None);
    assert_eq!(parse_unsigned_decimal("99999999999999999999999", u64::MAX), None);
    assert_eq!(parse_unsigned_decimal("5", 4), None);
    assert_eq!(parse_unsigned_decimal("4", 4), Some(4));
}

#[test]
fn decimal_reads_back() {
    for n in [0u64, 1, 9, 10, 99, 100, 123456789, u64::MAX] {
        let text = decimal_string(n);
        assert_eq!(parse_unsigned_decimal(text.as_str(), u64::MAX), Some(n));
    }
}

#[test]
fn string_helpers_agree_with_std() {
    assert!(str_starts_with("renderD128", "renderD"));
    assert!(!str_starts_with("card0", "renderD"));
    assert!(!str_starts_with("ren", "renderD"));
    assert!(str_equals("abc", "abc"));
    assert!(!str_equals("abc", "abcd"));
    assert!(str_eq_ignore_ascii_case("VaApi", "vaapi"));
    assert!(!str_eq_ignore_ascii_case("vaapí", "vaapi"));
    assert_eq!(str_strip_repeated_prefix("after:after:5", "after:"), "after:after:5".trim_start_matches("after:"));
    assert_eq!(str_strip_repeated_prefix("xafter:", "after:"), "xafter:");
    for s in ["  0x8086\n", "\u{3000}x\u{85}", "", " \t ", "a b"] {
        assert_eq!(str_trim(s), s.trim(), "{s:?}");
    }
    assert!(str_less("renderD128", "renderD129"));
    assert!(!str_less("renderD129", "renderD128"));
    assert!(str_less("renderD12", "renderD128"));
    assert!(!str_less("same", "same"));
    assert!(str_less("", "a"));
}
