//! Text functions against those of std.

use html_to_pdf_rust::text::{
    chars_of, contains, decimal, ends_with, parse_number, replace_char, same_text, split,
    starts_with, string_of, trim, trim_end_matches,
};

#[test]
fn every_character_is_trimmed_as_std_trims_it() {
    for code in 0..=0x10ffff_u32 {
        if let Some(c) = char::from_u32(code) {
            let text = format!("{}a{}", c, c);
            assert_eq!(trim(&text), text.trim());
        }
    }
}

#[test]
fn trimming_takes_white_space_off_both_ends() {
    assert_eq!(trim(""), "");
    assert_eq!(trim(" \t\r\n "), "");
    assert_eq!(trim("  a b  "), "a b");
    assert_eq!(trim("a"), "a");
}

#[test]
fn suffixes_are_taken_off_as_often_as_they_stand_there() {
    assert_eq!(trim_end_matches("1inin", "in"), "1");
    assert_eq!(trim_end_matches("1in", "cm"), "1in");
    assert_eq!(trim_end_matches("inin", "in"), "");
    assert_eq!(trim_end_matches("abc", ""), "abc");
}

#[test]
fn matching_agrees_with_std() {
    let texts = ["", "a", "ab", "aba", "abab", "\u{e9}a\u{e9}", "ba"];
    for s in texts {
        for t in texts {
            assert_eq!(starts_with(s, t), s.starts_with(t));
            assert_eq!(ends_with(s, t), s.ends_with(t));
            assert_eq!(contains(s, t), s.contains(t));
            assert_eq!(same_text(s, t), s == t);
        }
    }
}

#[test]
fn splitting_agrees_with_std_and_joins_again() {
    for s in ["", ",", "a", "a,b", ",a,,b,", "\u{e9},\u{4e2d}"] {
        let pieces = split(s, ',');
        let expected: Vec<&str> = s.split(',').collect();
        assert_eq!(pieces, expected);
        assert_eq!(pieces.join(","), s);
    }
}

#[test]
fn characters_are_replaced_one_by_one() {
    assert_eq!(replace_char("a\"b\\\"", '"', "\\\""), "a\\\"b\\\\\"");
    assert_eq!(replace_char("aaa", 'a', ""), "");
    assert_eq!(replace_char("abc", 'x', "y"), "abc");
}

#[test]
fn characters_and_strings_convert_into_each_other() {
    let v = chars_of("a\u{e9}\u{1f600}");
    assert_eq!(v, vec!['a', '\u{e9}', '\u{1f600}']);
    assert_eq!(string_of(&v, 0, 3), "a\u{e9}\u{1f600}");
    assert_eq!(string_of(&v, 1, 2), "\u{e9}");
    assert_eq!(string_of(&v, 2, 2), "");
}

#[test]
fn numbers_are_written_in_decimal() {
    for n in [0_u128, 7, 10, 99, 100, 65535, u64::MAX as u128, u128::MAX] {
        assert_eq!(decimal(n), format!("{}", n));
    }
}

#[test]
fn numbers_are_read_as_std_reads_them() {
    let texts = [
        "", "+", "-", "0", "+0", "-0", "007", "5000", "65535", "65536", "99999999999999999999",
        "18446744073709551615", "18446744073709551616", " 1", "1 ", "1_0", "++1", "1.0", "\u{661}",
        "0x10",
    ];
    for s in texts {
        assert_eq!(parse_number(s, u16::MAX as u64), s.parse::<u16>().ok().map(u64::from), "{}", s);
        assert_eq!(parse_number(s, u64::MAX), s.parse::<u64>().ok(), "{}", s);
    }
    assert_eq!(parse_number("3", 2), None);
    assert_eq!(parse_number("0", 0), Some(0));
}

#[test]
fn a_number_that_was_written_is_read_again() {
    for n in [0_u64, 1, 9, 10, 1024, u64::MAX] {
        assert_eq!(parse_number(&decimal(n as u128), u64::MAX), Some(n));
    }
}
