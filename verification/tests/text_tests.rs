use github_user::text::{decimal_text, digit, join3, parse_i64, parse_u32, same_text};

#[test]
fn numbers_are_written_in_decimal() {
    assert_eq!(decimal_text(0), "0");
    assert_eq!(decimal_text(7), "7");
    assert_eq!(decimal_text(10), "10");
    assert_eq!(decimal_text(1905), "1905");
    assert_eq!(decimal_text(usize::MAX), usize::MAX.to_string());
    for n in 0..2000usize {
        assert_eq!(decimal_text(n), n.to_string());
    }
    let digits: String = (0u8..10).map(digit).collect();
    assert_eq!(digits, "0123456789");
}

#[test]
fn unsigned_numbers_are_read() {
    assert_eq!(parse_u32("0"), Some(0));
    assert_eq!(parse_u32("+0"), Some(0));
    assert_eq!(parse_u32("007"), Some(7));
    assert_eq!(parse_u32("4294967295"), Some(u32::MAX));
    assert_eq!(parse_u32("+4294967295"), Some(u32::MAX));
    assert_eq!(parse_u32("4294967296"), None);
    assert_eq!(parse_u32("99999999999999999999999999"), None);
    assert_eq!(parse_u32(""), None);
    assert_eq!(parse_u32("+"), None);
    assert_eq!(parse_u32("-"), None);
    assert_eq!(parse_u32("-1"), None);
    assert_eq!(parse_u32("-0"), None);
    assert_eq!(parse_u32("++1"), None);
    assert_eq!(parse_u32("1 "), None);
    assert_eq!(parse_u32(" 1"), None);
    assert_eq!(parse_u32("1_000"), None);
    assert_eq!(parse_u32("12a"), None);
    assert_eq!(parse_u32("٣"), None);
    assert_eq!(parse_u32("1.0"), None);
}

#[test]
fn signed_numbers_are_read() {
    assert_eq!(parse_i64("0"), Some(0));
    assert_eq!(parse_i64("-0"), Some(0));
    assert_eq!(parse_i64("+17"), Some(17));
    assert_eq!(parse_i64("-17"), Some(-17));
    assert_eq!(parse_i64("1609459200"), Some(1_609_459_200));
    assert_eq!(parse_i64("9223372036854775807"), Some(i64::MAX));
    assert_eq!(parse_i64("9223372036854775808"), None);
    assert_eq!(parse_i64("-9223372036854775808"), Some(i64::MIN));
    assert_eq!(parse_i64("-9223372036854775809"), None);
    assert_eq!(parse_i64("-99999999999999999999999"), None);
    assert_eq!(parse_i64(""), None);
    assert_eq!(parse_i64("-"), None);
    assert_eq!(parse_i64("+"), None);
    assert_eq!(parse_i64("+-1"), None);
    assert_eq!(parse_i64("-+1"), None);
    assert_eq!(parse_i64("--1"), None);
    assert_eq!(parse_i64("12 "), None);
    assert_eq!(parse_i64("0x10"), None);
}

#[test]
fn reading_agrees_with_the_standard_reader() {
    let samples = [
        "", "0", "+0", "-0", "1", "+1", "-1", "00", "+", "-", " 1", "1 ", "a", "1a", "4294967295",
        "4294967296", "18446744073709551616", "9223372036854775807", "9223372036854775808",
        "-9223372036854775808", "-9223372036854775809", "+-1", "1e3", "١٢٣", "12\n",
    ];
    for s in samples {
        assert_eq!(parse_u32(s), s.parse::<u32>().ok(), "u32 of {:?}", s);
        assert_eq!(parse_i64(s), s.parse::<i64>().ok(), "i64 of {:?}", s);
    }
}

#[test]
fn texts_are_compared_and_joined() {
    assert!(same_text(&"PushEvent".to_string(), "PushEvent"));
    assert!(!same_text(&"PushEvent".to_string(), "pushevent"));
    assert!(!same_text(&"PushEvent".to_string(), "PushEvent "));
    assert!(same_text(&String::new(), ""));
    assert_eq!(join3("a", "", "c"), "ac");
    assert_eq!(join3("", "é", ""), "é");
}
