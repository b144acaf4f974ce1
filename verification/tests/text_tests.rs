use expenses::text::{
    i32_to_string, i64_to_string, is_whitespace, join_strings, join_strs, parse_i32, spaces,
    str_equal, trim,
};

#[test]
fn formats_integers_in_decimal() {
    assert_eq!(i32_to_string(0), "0");
    assert_eq!(i32_to_string(7), "7");
    assert_eq!(i32_to_string(-123), "-123");
    assert_eq!(i32_to_string(i32::MAX), "2147483647");
    assert_eq!(i32_to_string(i32::MIN), "-2147483648");
    assert_eq!(i64_to_string(i64::MIN), "-9223372036854775808");
    assert_eq!(i64_to_string(1000000), "1000000");
}

#[test]
fn parses_integers_as_str_parse_does() {
    assert_eq!(parse_i32("42"), Some(42));
    assert_eq!(parse_i32("+7"), Some(7));
    assert_eq!(parse_i32("-15"), Some(-15));
    assert_eq!(parse_i32("007"), Some(7));
    assert_eq!(parse_i32("-2147483648"), Some(i32::MIN));
    assert_eq!(parse_i32("2147483647"), Some(i32::MAX));
    assert_eq!(parse_i32("2147483648"), None);
    assert_eq!(parse_i32("-2147483649"), None);
    assert_eq!(parse_i32("99999999999999999999"), None);
    assert_eq!(parse_i32(""), None);
    assert_eq!(parse_i32("-"), None);
    assert_eq!(parse_i32("+"), None);
    assert_eq!(parse_i32("1a"), None);
    assert_eq!(parse_i32(" 1"), None);
    assert_eq!(parse_i32("1.5"), None);
    assert_eq!(parse_i32("٣"), None);
    for s in ["42", "+7", "-15", "", "-", "x", "2147483648", "-0", "0012"] {
        assert_eq!(parse_i32(s), s.parse::<i32>().ok());
    }
}

#[test]
fn parse_reads_back_formatted_numbers() {
    for n in [0, 1, -1, 9, 10, -10, 12345, i32::MAX, i32::MIN, 2000000000] {
        assert_eq!(parse_i32(&i32_to_string(n)), Some(n));
    }
}

#[test]
fn trims_unicode_whitespace() {
    assert_eq!(trim("  a b \t\n"), "a b");
    assert_eq!(trim("\u{3000}x\u{A0}"), "x");
    assert_eq!(trim("   "), "");
    assert_eq!(trim(""), "");
    assert_eq!(trim("Quit"), "Quit");
    for s in [" x ", "\u{2028}y\u{85}", "\t z", "é "] {
        assert_eq!(trim(s), s.trim());
        assert_eq!(trim(&trim(s)), trim(s));
    }
    assert!(is_whitespace(' '));
    assert!(is_whitespace('\u{2000}'));
    assert!(!is_whitespace('a'));
    assert!(!is_whitespace('\u{200B}'));
}

#[test]
fn joins_and_pads() {
    let parts = vec!["a".to_string(), "bc".to_string(), "".to_string()];
    assert_eq!(join_strings(&parts, ", "), "a, bc, ");
    assert_eq!(join_strings(&vec![], ", "), "");
    assert_eq!(join_strs(&vec!["name", "amount"], ", "), "name, amount");
    assert_eq!(join_strs(&vec!["one"], "\n"), "one");
    assert_eq!(spaces(3), "   ");
    assert_eq!(spaces(0), "");
    assert!(str_equal("a", "a"));
    assert!(!str_equal("a", "b"));
}
