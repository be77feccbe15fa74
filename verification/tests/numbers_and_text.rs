use doorstate::decimal::{parse_unsigned, push_decimal};
use doorstate::text::{contains_text, same_text};

fn decimal(n: u64) -> String {
    let mut out = String::new();
    push_decimal(&mut out, n);
    out
}

#[test]
fn decimal_of_zero() {
    assert_eq!(decimal(0), "0");
}

#[test]
fn decimal_of_small_numbers() {
    assert_eq!(decimal(7), "7");
    assert_eq!(decimal(10), "10");
    assert_eq!(decimal(1000), "1000");
    assert_eq!(decimal(1234567890), "1234567890");
}

#[test]
fn decimal_of_the_largest_number() {
    assert_eq!(decimal(u64::MAX), "18446744073709551615");
}

#[test]
fn decimal_appends() {
    let mut out = String::from("time=");
    push_decimal(&mut out, 42);
    assert_eq!(out, "time=42");
}

#[test]
fn decimal_agrees_with_std() {
    for n in [0u64, 1, 9, 10, 11, 99, 100, 101, 65535, 65536, 4294967295, 4294967296] {
        assert_eq!(decimal(n), n.to_string());
    }
}

#[test]
fn parse_reads_digits() {
    assert_eq!(parse_unsigned("0", 10), Some(0));
    assert_eq!(parse_unsigned("1883", 65535), Some(1883));
    assert_eq!(parse_unsigned("007", 65535), Some(7));
    assert_eq!(parse_unsigned("18446744073709551615", u64::MAX), Some(u64::MAX));
}

#[test]
fn parse_takes_one_leading_plus() {
    assert_eq!(parse_unsigned("+5", 10), Some(5));
    assert_eq!(parse_unsigned("++5", 10), None);
    assert_eq!(parse_unsigned("+", 10), None);
}

#[test]
fn parse_refuses_what_is_no_number() {
    assert_eq!(parse_unsigned("", 10), None);
    assert_eq!(parse_unsigned("-1", 10), None);
    assert_eq!(parse_unsigned("1a", 100), None);
    assert_eq!(parse_unsigned(" 1", 100), None);
    assert_eq!(parse_unsigned("1 ", 100), None);
    assert_eq!(parse_unsigned("\u{0661}", 100), None);
}

#[test]
fn parse_refuses_what_is_too_large() {
    assert_eq!(parse_unsigned("65535", 65535), Some(65535));
    assert_eq!(parse_unsigned("65536", 65535), None);
    assert_eq!(parse_unsigned("18446744073709551616", u64::MAX), None);
    assert_eq!(parse_unsigned("99999999999999999999999", u64::MAX), None);
    assert_eq!(parse_unsigned("1", 0), None);
    assert_eq!(parse_unsigned("0", 0), Some(0));
}

#[test]
fn parse_reads_back_what_decimal_wrote() {
    for n in [0u64, 5, 10, 1000, 1234567890, u64::MAX] {
        assert_eq!(parse_unsigned(&decimal(n), u64::MAX), Some(n));
    }
}

#[test]
fn parse_agrees_with_std() {
    for text in ["0", "12", "+12", "", "+", "-3", "x", "4294967295", "4294967296", "00012"] {
        assert_eq!(parse_unsigned(text, u32::MAX as u64), text.parse::<u32>().ok().map(u64::from));
    }
}

#[test]
fn contains_finds_text_anywhere() {
    assert!(contains_text("Calendar.Event-2024", "Event"));
    assert!(contains_text("Event", "Event"));
    assert!(contains_text("xEvent", "Event"));
    assert!(contains_text("Eventx", "Event"));
    assert!(contains_text("EvEvent", "Event"));
}

#[test]
fn contains_misses_what_is_not_there() {
    assert!(!contains_text("Calendar.Evnt", "Event"));
    assert!(!contains_text("event", "Event"));
    assert!(!contains_text("Even", "Event"));
    assert!(!contains_text("", "Event"));
}

#[test]
fn contains_finds_the_empty_text() {
    assert!(contains_text("abc", ""));
    assert!(contains_text("", ""));
}

#[test]
fn contains_counts_characters_not_bytes() {
    assert!(contains_text("Tür.Event", "Event"));
    assert!(contains_text("Tür", "ür"));
    assert!(!contains_text("Tür", "ur"));
}

#[test]
fn same_text_compares() {
    assert!(same_text("door_open", "door_open"));
    assert!(!same_text("door_open", "door_opem"));
    assert!(!same_text("door_open", "door_ope"));
    assert!(!same_text("door", "door_open"));
    assert!(same_text("", ""));
}
