use bootstreep_dashboard::text::{
    chars_of, decimal_string, escape_quotes_str, hex_chars, parse_uint_chars, split_lines,
    split_pieces, split_words, str_contains, str_eq, trim_str, u32_or_zero, u64_or_zero,
    zero_pad_chars, IntError, Sep,
};

fn strs(v: &Vec<Vec<char>>) -> Vec<String> {
    v.iter().map(|w| w.iter().collect()).collect()
}

#[test]
fn trim_removes_unicode_white_space_at_both_ends() {
    assert_eq!(trim_str("  a b \n"), "a b");
    assert_eq!(trim_str("\u{3000}x\u{a0}"), "x");
    assert_eq!(trim_str(" \t "), "");
}

#[test]
fn lines_follow_str_lines() {
    let v = chars_of("a\nb\r\n\nc");
    assert_eq!(strs(&split_lines(&v)), vec!["a", "b", "", "c"]);
    assert_eq!(strs(&split_lines(&chars_of("x\n"))), vec!["x"]);
    assert!(split_lines(&chars_of("")).is_empty());
    assert_eq!(strs(&split_lines(&chars_of("a\r"))), vec!["a\r"]);
    assert_eq!(strs(&split_lines(&chars_of("\n"))), vec![""]);
}

#[test]
fn words_skip_runs_of_white_space() {
    let v = chars_of("  a  b\tc ");
    assert_eq!(strs(&split_words(&v)), vec!["a", "b", "c"]);
    assert!(split_words(&chars_of("   ")).is_empty());
}

#[test]
fn split_with_a_limit_keeps_the_rest() {
    let v = chars_of("a|b|c|d|e|f");
    assert_eq!(strs(&split_pieces(&v, Sep::Char('|'), 5)), vec!["a", "b", "c", "d", "e|f"]);
    assert_eq!(strs(&split_pieces(&chars_of("a::b"), Sep::Char(':'), usize::MAX)), vec!["a", "", "b"]);
    assert_eq!(strs(&split_pieces(&chars_of(""), Sep::Char(':'), usize::MAX)), vec![""]);
}

#[test]
fn parse_matches_unsigned_from_str() {
    assert_eq!(parse_uint_chars(&chars_of("42"), u64::MAX), Ok(42));
    assert_eq!(parse_uint_chars(&chars_of("+7"), u64::MAX), Ok(7));
    assert_eq!(parse_uint_chars(&chars_of(""), u64::MAX), Err(IntError::Empty));
    assert_eq!(parse_uint_chars(&chars_of("+"), u64::MAX), Err(IntError::InvalidDigit));
    assert_eq!(parse_uint_chars(&chars_of("-1"), u64::MAX), Err(IntError::InvalidDigit));
    assert_eq!(parse_uint_chars(&chars_of("12x"), u64::MAX), Err(IntError::InvalidDigit));
    assert_eq!(
        parse_uint_chars(&chars_of("18446744073709551616"), u64::MAX),
        Err(IntError::PosOverflow)
    );
    assert_eq!(
        parse_uint_chars(&chars_of("99999999999999999999x"), u64::MAX),
        Err(IntError::PosOverflow)
    );
    assert_eq!(
        parse_uint_chars(&chars_of("18446744073709551615"), u64::MAX),
        Ok(u64::MAX)
    );
    // the same cases through std, as a cross-check
    assert!("12x".parse::<u64>().is_err());
    assert_eq!(u32_or_zero(&chars_of("4294967296")), 0);
    assert_eq!(u32_or_zero(&chars_of("4294967295")), u32::MAX);
    assert_eq!(u64_or_zero(&chars_of("abc")), 0);
}

#[test]
fn int_error_messages_match_parse_int_error() {
    assert_eq!(IntError::Empty.message(), "".parse::<u64>().unwrap_err().to_string());
    assert_eq!(IntError::InvalidDigit.message(), "x".parse::<u64>().unwrap_err().to_string());
    assert_eq!(
        IntError::PosOverflow.message(),
        "99999999999999999999".parse::<u64>().unwrap_err().to_string()
    );
}

#[test]
fn numbers_are_written_like_format() {
    assert_eq!(decimal_string(0), "0");
    assert_eq!(decimal_string(1234), "1234");
    assert_eq!(decimal_string(u64::MAX), u64::MAX.to_string());
    let h: String = hex_chars(255).iter().collect();
    assert_eq!(h, "ff");
    let h: String = hex_chars(0x5f5e100).iter().collect();
    assert_eq!(h, format!("{:x}", 0x5f5e100u64));
    let p: String = zero_pad_chars(&chars_of("7"), 4).iter().collect();
    assert_eq!(p, "0007");
    let p: String = zero_pad_chars(&chars_of("12345"), 4).iter().collect();
    assert_eq!(p, "12345");
}

#[test]
fn decimal_round_trip_on_values() {
    for n in [0u64, 9, 10, 99, 100, 4096, u64::MAX] {
        let d = decimal_string(n);
        assert_eq!(parse_uint_chars(&chars_of(&d), u64::MAX), Ok(n));
    }
}

#[test]
fn quotes_are_escaped_like_replace() {
    assert_eq!(escape_quotes_str("it's"), "it's".replace("'", "'\\''"));
    assert_eq!(escape_quotes_str("none"), "none");
}

#[test]
fn substring_and_equality() {
    assert!(str_contains("a..b", ".."));
    assert!(!str_contains("a.b", ".."));
    assert!(str_contains("abc", ""));
    assert!(str_eq("abc", "abc"));
    assert!(!str_eq("abc", "abd"));
}

const SAMPLES: [&str; 12] = [
    "", "\n", "a", "a\n", "a\r", "a\r\n", "a\n\nb", "\r\n\r\n", " x \t y\u{3000}z ",
    "\u{85}a\u{a0}", "a|b||c", "tab\tsep\t",
];

#[test]
fn lines_words_and_trim_agree_with_std() {
    for s in SAMPLES {
        let v = chars_of(s);
        let lines: Vec<String> = s.lines().map(|l| l.to_string()).collect();
        assert_eq!(strs(&split_lines(&v)), lines, "lines of {:?}", s);
        let words: Vec<String> = s.split_whitespace().map(|l| l.to_string()).collect();
        assert_eq!(strs(&split_words(&v)), words, "words of {:?}", s);
        assert_eq!(trim_str(s), s.trim(), "trim of {:?}", s);
        let pipes: Vec<String> = s.split('|').map(|l| l.to_string()).collect();
        assert_eq!(strs(&split_pieces(&v, Sep::Char('|'), usize::MAX)), pipes, "split of {:?}", s);
        let limited: Vec<String> = s.splitn(2, '\t').map(|l| l.to_string()).collect();
        assert_eq!(strs(&split_pieces(&v, Sep::Char('\t'), 2)), limited, "splitn of {:?}", s);
    }
}
