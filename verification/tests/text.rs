use localbench::text::{
    alphanumeric, chars_of, dec_i64, dec_padded, dec_u64, is_blank, join, lower_chars,
    parse_signed, parse_unsigned, range_string, split_lines, split_on, split_words, str_contains,
    str_ends_with, str_starts_with, string_of, trim, white,
};

fn owned(parts: &[&str]) -> Vec<String> {
    parts.iter().map(|p| p.to_string()).collect()
}

#[test]
fn numbers_are_written_in_decimal() {
    assert_eq!(dec_u64(0), "0");
    assert_eq!(dec_u64(u64::MAX), "18446744073709551615");
    assert_eq!(dec_i64(-42), "-42");
    assert_eq!(dec_i64(i64::MIN), "-9223372036854775808");
    assert_eq!(dec_padded(7, 3), "007");
    assert_eq!(dec_padded(1234, 3), "1234");
}

#[test]
fn numbers_read_back_within_their_bounds() {
    assert_eq!(parse_unsigned("18446744073709551615"), Some(u64::MAX));
    assert_eq!(parse_unsigned("18446744073709551616"), None);
    assert_eq!(parse_unsigned("+7"), Some(7));
    assert_eq!(parse_unsigned("-7"), None);
    assert_eq!(parse_unsigned("+"), None);
    assert_eq!(parse_unsigned(""), None);
    assert_eq!(parse_signed("-9223372036854775808"), Some(i64::MIN));
    assert_eq!(parse_signed("9223372036854775808"), None);
    assert_eq!(parse_signed("+-1"), None);
    assert_eq!(parse_signed("1a"), None);
}

#[test]
fn white_space_is_trimmed_and_split_as_unicode_has_it() {
    assert_eq!(trim("\u{a0}\t a b \u{2003}\n"), "a b");
    assert!(is_blank(" \u{3000}\r\n"));
    assert!(!is_blank("."));
    assert_eq!(split_words(&chars_of("  one\ttwo\u{85}three ")), owned(&["one", "two", "three"]));
    for c in '\0'..='\u{3100}' {
        assert_eq!(white(c), c.is_whitespace());
    }
    for c in '\0'..='\u{ff}' {
        assert_eq!(alphanumeric(c), c.is_ascii_alphanumeric());
    }
}

#[test]
fn lines_end_at_either_ending() {
    assert_eq!(split_lines("a\r\nb\n\nc"), owned(&["a", "b", "", "c"]));
    assert_eq!(split_lines("a\n"), owned(&["a"]));
    assert_eq!(split_lines("a\r"), owned(&["a\r"]));
    assert_eq!(split_lines(""), Vec::<String>::new());
}

#[test]
fn pieces_join_back() {
    assert_eq!(split_on("a,,b", ','), owned(&["a", "", "b"]));
    assert_eq!(split_on("", ','), owned(&[""]));
    assert_eq!(join(&split_on("a,,b", ','), ","), "a,,b");
    assert_eq!(join(&Vec::new(), ","), "");
}

#[test]
fn needles_are_found_where_they_stand() {
    assert!(str_contains("abcabd", "abd"));
    assert!(!str_contains("abcabd", "abe"));
    assert!(str_contains("abc", ""));
    assert!(str_starts_with("abc", "ab"));
    assert!(!str_starts_with("ab", "abc"));
    assert!(str_ends_with("abc", "bc"));
    assert!(!str_ends_with("abc", "ab"));
}

#[test]
fn only_ascii_letters_change_case() {
    assert_eq!(string_of(&lower_chars(&chars_of("AbZ \u{c9}9"))), "abz \u{c9}9");
    assert_eq!(range_string(&chars_of("\u{e9}cole"), 1, 3), "co");
}
