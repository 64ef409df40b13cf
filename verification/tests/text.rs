use fritz_log_parser::text::{
    is_ascii_digit, parse_i32, parse_i64, parse_i64_in, parse_number, parse_u32, same_text,
    split, starts_with, to_chars,
};

#[test]
fn chars_of_a_string() {
    assert_eq!(to_chars("aü€"), vec!['a', 'ü', '€']);
    assert_eq!(to_chars(""), Vec::<char>::new());
}

#[test]
fn only_ascii_digits_are_digits() {
    assert!(is_ascii_digit('0'));
    assert!(is_ascii_digit('9'));
    assert!(!is_ascii_digit('/'));
    assert!(!is_ascii_digit(':'));
    assert!(!is_ascii_digit('٣'));
}

#[test]
fn numbers_up_to_a_limit() {
    let chars = to_chars("x0123y");
    assert_eq!(parse_number(&chars, 1, 5, 123), Some(123));
    assert_eq!(parse_number(&chars, 1, 5, 122), None);
    assert_eq!(parse_number(&chars, 1, 1, 122), None);
    assert_eq!(parse_number(&chars, 0, 5, 1000), None);
    assert_eq!(parse_number(&chars, 1, 6, 1000), None);
    let chars = to_chars("18446744073709551615");
    assert_eq!(parse_number(&chars, 0, 20, u64::MAX), Some(u64::MAX));
    let chars = to_chars("18446744073709551616");
    assert_eq!(parse_number(&chars, 0, 20, u64::MAX), None);
    let chars = to_chars("00000000000000000000000000000000000007");
    assert_eq!(parse_number(&chars, 0, chars.len(), 7), Some(7));
}

#[test]
fn signed_integers() {
    assert_eq!(parse_i64("0"), Some(0));
    assert_eq!(parse_i64("+0"), Some(0));
    assert_eq!(parse_i64("-0"), Some(0));
    assert_eq!(parse_i64("9223372036854775807"), Some(i64::MAX));
    assert_eq!(parse_i64("-9223372036854775808"), Some(i64::MIN));
    assert_eq!(parse_i64("9223372036854775808"), None);
    assert_eq!(parse_i64("-9223372036854775809"), None);
    assert_eq!(parse_i64(""), None);
    assert_eq!(parse_i64("+"), None);
    assert_eq!(parse_i64("-"), None);
    assert_eq!(parse_i64("--1"), None);
    assert_eq!(parse_i64(" 1"), None);
    assert_eq!(parse_i64("1 "), None);
    assert_eq!(parse_i64("1_000"), None);
    assert_eq!(parse_i64("٣"), None);
    assert_eq!(parse_i64_in(&to_chars("a-12b"), 1, 4), Some(-12));

    assert_eq!(parse_i32("2147483647"), Some(i32::MAX));
    assert_eq!(parse_i32("-2147483648"), Some(i32::MIN));
    assert_eq!(parse_i32("2147483648"), None);
    assert_eq!(parse_i32("-2147483649"), None);
    assert_eq!(parse_i32("+12"), Some(12));
}

#[test]
fn unsigned_integers() {
    assert_eq!(parse_u32("0"), Some(0));
    assert_eq!(parse_u32("+17"), Some(17));
    assert_eq!(parse_u32("4294967295"), Some(u32::MAX));
    assert_eq!(parse_u32("4294967296"), None);
    assert_eq!(parse_u32("-0"), None);
    assert_eq!(parse_u32("-1"), None);
    assert_eq!(parse_u32(""), None);
    assert_eq!(parse_u32("12a"), None);
}

#[test]
fn parsers_agree_with_std() {
    for s in [
        "", "0", "-", "+", "+-1", "007", "-007", "12", "4294967295", "4294967296",
        "2147483648", "-2147483648", "9223372036854775807", "9223372036854775808",
        "-9223372036854775808", "-9223372036854775809", "1e3", "0x10", " 7", "7 ",
    ] {
        assert_eq!(parse_i64(s), s.parse::<i64>().ok(), "{}", s);
        assert_eq!(parse_i32(s), s.parse::<i32>().ok(), "{}", s);
        assert_eq!(parse_u32(s), s.parse::<u32>().ok(), "{}", s);
    }
}

#[test]
fn fields_between_separators() {
    let chars = to_chars("2$60$ab$$");
    assert_eq!(split(&chars, '$'), vec![(0, 1), (2, 4), (5, 7), (8, 8), (9, 9)]);
    assert_eq!(split(&to_chars(""), '$'), vec![(0, 0)]);
    assert_eq!(split(&to_chars("abc"), '$'), vec![(0, 3)]);
    assert_eq!(split(&to_chars("$"), '$'), vec![(0, 0), (1, 1)]);
}

#[test]
fn same_text_and_prefixes() {
    assert!(same_text("fritz3713", "fritz3713"));
    assert!(!same_text("fritz3713", "fritz3714"));
    assert!(!same_text("fritz", "fritz3713"));
    assert!(same_text("", ""));
    assert!(starts_with(&to_chars("DSL ist verfügbar"), &to_chars("DSL ist")));
    assert!(starts_with(&to_chars("DSL"), &to_chars("")));
    assert!(!starts_with(&to_chars("DSL"), &to_chars("DSL ")));
    assert!(!starts_with(&to_chars("xDSL"), &to_chars("DSL")));
}

#[test]
fn split_agrees_with_std() {
    for s in ["", "$", "$$", "a$b", "a$$b$", "$a", "2$60000$d4$6000$4f", "ü$€$"] {
        let chars = to_chars(s);
        let fields: Vec<String> = split(&chars, '$')
            .into_iter()
            .map(|(from, to)| chars[from..to].iter().collect())
            .collect();
        let expected: Vec<String> = s.split('$').map(str::to_string).collect();
        assert_eq!(fields, expected, "{}", s);
    }
}

#[test]
fn prefixes_agree_with_std() {
    for (s, prefix) in [("", ""), ("a", ""), ("", "a"), ("DSL ist verfügbar", "DSL ist verfü"), ("ab", "abc"), ("abc", "ab"), ("abc", "bc")] {
        assert_eq!(
            starts_with(&to_chars(s), &to_chars(prefix)),
            s.starts_with(prefix),
            "{} {}",
            s,
            prefix
        );
        assert_eq!(same_text(s, prefix), s == prefix);
    }
}
