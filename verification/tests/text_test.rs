use m365_copilot_proxy::text::{
    contains_text, ends_with, equals_ignoring_case, is_white_space, join_text, lines_of,
    parse_signed, parse_unsigned, signed_text, split_text, starts_with, trim_text, trim_trailing,
    unsigned_text, upper_text,
};

fn all_chars() -> impl Iterator<Item = char> {
    (0..=0x10_ffffu32).filter_map(char::from_u32)
}

#[test]
fn white_space_is_what_std_says() {
    for c in all_chars() {
        assert_eq!(is_white_space(c), c.is_whitespace(), "{c:?}");
    }
}

#[test]
fn upper_case_is_what_std_says() {
    for s in ["", "info", "Warn", "straße", "ǆ", "DEBUG", "ünïcode ß"] {
        assert_eq!(upper_text(s), s.to_uppercase());
    }
}

#[test]
fn trimming_is_what_std_says() {
    for s in ["", "  ", " a b ", "\u{a0}x\u{3000}", "x", "\t\r\nline\u{85}", "no"] {
        assert_eq!(trim_text(s), s.trim());
        assert_eq!(trim_trailing(s, 'x'), s.trim_end_matches('x'));
    }
    assert_eq!(trim_trailing("ab===", '='), "ab");
}

#[test]
fn splitting_and_lines_are_what_std_says() {
    for s in ["", "a.b.c", "..", "a", ".a", "a\nb", "a\r\nb\n", "\n\n", "x\r", "end\n"] {
        let parts: Vec<&str> = s.split('.').collect();
        assert_eq!(split_text(s, '.'), parts);
        let lines: Vec<&str> = s.lines().collect();
        assert_eq!(lines_of(s), lines);
    }
}

#[test]
fn joining_puts_separators_between() {
    let parts = vec!["a".to_string(), String::new(), "c".to_string()];
    assert_eq!(join_text(&parts, "--"), "a----c");
    assert_eq!(join_text(&[], "--"), "");
}

#[test]
fn searching_is_what_std_says() {
    for (s, n) in [("hello", "ell"), ("hello", "hello!"), ("", ""), ("aaab", "aab"), ("ü", "ü")] {
        assert_eq!(contains_text(s, n), s.contains(n));
        assert_eq!(starts_with(s, n), s.starts_with(n));
        assert_eq!(ends_with(s, n), s.ends_with(n));
    }
}

#[test]
fn numbers_read_and_write_as_std_has_them() {
    for s in [
        "0", "7", "65535", "65536", "+12", "-12", "", "+", "-", "1 ", " 1", "1_0", "007", "٣",
        "18446744073709551615", "18446744073709551616", "9223372036854775807",
        "9223372036854775808", "-9223372036854775808", "-9223372036854775809",
    ] {
        assert_eq!(parse_unsigned(s, 65535).map(|n| n as u16), s.parse::<u16>().ok(), "{s}");
        assert_eq!(parse_unsigned(s, u64::MAX), s.parse::<u64>().ok(), "{s}");
        assert_eq!(parse_signed(s), s.parse::<i64>().ok(), "{s}");
    }
    for n in [0, 1, 10, 4096, u64::MAX] {
        assert_eq!(unsigned_text(n), n.to_string());
    }
    for n in [0, -1, 42, i64::MIN, i64::MAX] {
        assert_eq!(signed_text(n), n.to_string());
    }
}

#[test]
fn case_is_ignored_for_ascii_letters() {
    assert!(equals_ignoring_case("TrUe", "true"));
    assert!(!equals_ignoring_case("true", "tru"));
    assert!(!equals_ignoring_case("ÄB", "äb"));
}
