use so_server_rust::text::{
    byte_length, chars_of, parse_i32, parse_u64, parse_usize, push_decimal, push_range,
    push_signed_decimal, same_text, text_of_range, whitespace, IntFailure,
};
use std::num::IntErrorKind;

fn failure_of(kind: &IntErrorKind) -> IntFailure {
    match kind {
        IntErrorKind::Empty => IntFailure::Empty,
        IntErrorKind::InvalidDigit => IntFailure::InvalidDigit,
        IntErrorKind::PosOverflow => IntFailure::PosOverflow,
        IntErrorKind::NegOverflow => IntFailure::NegOverflow,
        other => panic!("no decimal text gives {:?}", other),
    }
}

fn samples() -> Vec<&'static str> {
    vec![
        "",
        "0",
        "7",
        "10",
        "007",
        "+5",
        "-5",
        "+",
        "-",
        "++5",
        "+-5",
        "-+5",
        "--5",
        " 5",
        "5 ",
        "5x",
        "x5",
        "1_000",
        "1.5",
        "٣",
        "１２",
        "2147483647",
        "2147483648",
        "-2147483648",
        "-2147483649",
        "+2147483647",
        "4294967295",
        "4294967296",
        "18446744073709551615",
        "18446744073709551616",
        "+18446744073709551615",
        "-18446744073709551615",
        "99999999999999999999",
        "99999999999999999999x",
        "x99999999999999999999",
        "1844674407370955161x",
        "18446744073709551615x",
        "184467440737095516150",
        "-99999999999999999999",
        "-99999999999x999999999",
        "-0",
        "+0",
        "000000000000000000000000000000000000001",
        "-000000000000000000000000000002147483648",
    ]
}

#[test]
fn parse_u64_agrees_with_the_standard_parser() {
    for s in samples() {
        let expected = s.parse::<u64>().map_err(|e| failure_of(e.kind()));
        assert_eq!(parse_u64(s), expected, "on {:?}", s);
    }
}

#[test]
fn parse_usize_agrees_with_the_standard_parser() {
    for s in samples() {
        let expected = s.parse::<usize>().map_err(|e| failure_of(e.kind()));
        assert_eq!(parse_usize(s), expected, "on {:?}", s);
    }
}

#[test]
fn parse_i32_agrees_with_the_standard_parser() {
    for s in samples() {
        let expected = s.parse::<i32>().map_err(|e| failure_of(e.kind()));
        assert_eq!(parse_i32(s), expected, "on {:?}", s);
    }
}

#[test]
fn parse_u64_reads_plain_numbers() {
    assert_eq!(parse_u64("0"), Ok(0));
    assert_eq!(parse_u64("42"), Ok(42));
    assert_eq!(parse_u64("+42"), Ok(42));
    assert_eq!(parse_u64("18446744073709551615"), Ok(u64::MAX));
}

#[test]
fn parse_u64_gives_each_failure() {
    assert_eq!(parse_u64(""), Err(IntFailure::Empty));
    assert_eq!(parse_u64("abc"), Err(IntFailure::InvalidDigit));
    assert_eq!(parse_u64("-1"), Err(IntFailure::InvalidDigit));
    assert_eq!(parse_u64("18446744073709551616"), Err(IntFailure::PosOverflow));
}

#[test]
fn overflow_before_a_bad_character_is_an_overflow() {
    assert_eq!(parse_u64("99999999999999999999x"), Err(IntFailure::PosOverflow));
    assert_eq!(parse_u64("9x9999999999999999999"), Err(IntFailure::InvalidDigit));
}

#[test]
fn parse_i32_reads_both_signs_and_both_limits() {
    assert_eq!(parse_i32("-2147483648"), Ok(i32::MIN));
    assert_eq!(parse_i32("2147483647"), Ok(i32::MAX));
    assert_eq!(parse_i32("-17"), Ok(-17));
    assert_eq!(parse_i32("2147483648"), Err(IntFailure::PosOverflow));
    assert_eq!(parse_i32("-2147483649"), Err(IntFailure::NegOverflow));
}

#[test]
fn failure_messages_are_those_of_the_standard_parser() {
    assert_eq!(IntFailure::Empty.message(), "".parse::<u64>().unwrap_err().to_string());
    assert_eq!(IntFailure::InvalidDigit.message(), "x".parse::<u64>().unwrap_err().to_string());
    assert_eq!(
        IntFailure::PosOverflow.message(),
        "99999999999999999999".parse::<u64>().unwrap_err().to_string()
    );
    assert_eq!(
        IntFailure::NegOverflow.message(),
        "-99999999999".parse::<i32>().unwrap_err().to_string()
    );
    assert_eq!(IntFailure::InvalidDigit.message(), "invalid digit found in string");
}

#[test]
fn whitespace_agrees_with_the_standard_predicate_on_every_character() {
    for code in 0..=0x10FFFFu32 {
        if let Some(c) = char::from_u32(code) {
            assert_eq!(whitespace(c), c.is_whitespace(), "on U+{:04X}", code);
        }
    }
}

#[test]
fn whitespace_knows_blanks_and_letters() {
    assert!(whitespace(' '));
    assert!(whitespace('\t'));
    assert!(whitespace('\n'));
    assert!(whitespace('\r'));
    assert!(whitespace('\u{3000}'));
    assert!(!whitespace('a'));
    assert!(!whitespace('\0'));
    assert!(!whitespace('\u{200B}'));
}

#[test]
fn decimal_rendering_agrees_with_the_standard_one() {
    for n in [0u128, 1, 9, 10, 11, 99, 100, 12345, u64::MAX as u128, u128::MAX] {
        let mut out = String::from("n=");
        push_decimal(&mut out, n);
        assert_eq!(out, format!("n={}", n));
    }
}

#[test]
fn signed_decimal_rendering_agrees_with_the_standard_one() {
    for n in [0i64, 1, -1, 10, -10, i32::MIN as i64, i32::MAX as i64, i64::MIN, i64::MAX] {
        let mut out = String::new();
        push_signed_decimal(&mut out, n);
        assert_eq!(out, format!("{}", n));
    }
}

#[test]
fn chars_and_text_go_back_and_forth() {
    let s = "añó 🙂 z";
    let v = chars_of(s);
    assert_eq!(v, s.chars().collect::<Vec<char>>());
    assert_eq!(text_of_range(&v, 0, v.len()), s);
    assert_eq!(text_of_range(&v, 1, 3), "ñó");
    assert_eq!(text_of_range(&v, 2, 2), "");
    let mut out = String::from(">");
    push_range(&mut out, &v, 4, 5);
    assert_eq!(out, ">🙂");
}

#[test]
fn same_text_compares_characters() {
    assert!(same_text("", ""));
    assert!(same_text("añó", "añó"));
    assert!(!same_text("a", "b"));
    assert!(!same_text("a", "ab"));
    assert!(!same_text("ab", "a"));
}

#[test]
fn byte_length_counts_utf8_bytes() {
    assert_eq!(byte_length(""), 0);
    assert_eq!(byte_length("abc"), 3);
    assert_eq!(byte_length("añó"), 5);
    assert_eq!(byte_length("🙂"), 4);
}
