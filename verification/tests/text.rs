use funke::number::{parse_u32, six_digits};
use funke::text::{
    bytes_in, chars_of, contains, join, lines_of, part_of, precedes, replace, space, split_at_first,
    starts_with, text_of, trim,
};

fn trimmed(s: &str) -> String {
    text_of(&trim(&chars_of(s)))
}

#[test]
fn white_space_is_that_of_unicode() {
    for code in 0..=0x10ffff_u32 {
        if let Some(c) = char::from_u32(code) {
            assert_eq!(space(c), c.is_whitespace(), "U+{code:04X}");
        }
    }
}

#[test]
fn trimming_takes_white_space_off_both_ends() {
    for s in ["", " ", "a", " a b ", "\t\u{a0}x\u{3000}\r\n", "no"] {
        assert_eq!(trimmed(s), s.trim());
    }
}

#[test]
fn lines_end_at_line_feeds() {
    for s in ["", "\n", "a", "a\n", "a\nb", "a\r\nb\r\n", "a\r", "\n\nx\r\r\n", "\r\n"] {
        let found: Vec<String> = lines_of(s).iter().map(|l| text_of(l)).collect();
        let expected: Vec<&str> = s.lines().collect();
        assert_eq!(found, expected, "{s:?}");
    }
}

#[test]
fn splitting_takes_the_leftmost_separator() {
    let parts = split_at_first(&chars_of("a: b: c"), ": ").unwrap();
    assert_eq!(text_of(&parts.0), "a");
    assert_eq!(text_of(&parts.1), "b: c");
    assert!(split_at_first(&chars_of("a:b"), ": ").is_none());
    let parts = split_at_first(&chars_of("ä€x€"), "€").unwrap();
    assert_eq!(text_of(&parts.0), "ä");
    assert_eq!(text_of(&parts.1), "x€");
}

#[test]
fn searching_and_prefixes() {
    assert!(contains(&chars_of("xxName:yy"), "Name:"));
    assert!(!contains(&chars_of("xxName yy"), "Name:"));
    assert!(contains(&chars_of(""), ""));
    assert!(starts_with(&chars_of("Card #1"), "Card #"));
    assert!(!starts_with(&chars_of("Card"), "Card #"));
    assert_eq!(text_of(&part_of(&chars_of("abcdef"), 1, 4)), "bcd");
}

#[test]
fn replacing_and_joining() {
    assert_eq!(replace("AA:BB:", ':', '_'), "AA_BB_");
    let list = vec!["a".to_string(), "b".to_string(), "c".to_string()];
    assert_eq!(join(&list, " | "), "a | b | c");
    assert_eq!(join(&list[..1].to_vec(), " | "), "a");
    assert_eq!(join(&Vec::new(), " | "), "");
    assert_eq!(bytes_in("▸ é"), "▸ é".len());
}

#[test]
fn dictionary_order_is_that_of_strings() {
    let words = ["", "a", "ab", "b", "é", "z", "\u{ffff}", "😀", "A"];
    for a in words {
        for b in words {
            assert_eq!(precedes(a, b), a <= b, "{a:?} {b:?}");
        }
    }
}

#[test]
fn numbers_are_read_like_the_standard_library_reads_them() {
    for s in [
        "", "+", "-", "-1", "-0", "0", "+0", "007", "42", " 42", "42 ", "4294967295", "4294967296",
        "+4294967295", "99999999999999999999", "99999999999999999999x", "4x", "٤", "++1",
    ] {
        assert_eq!(parse_u32(s), s.parse::<u32>().ok(), "{s:?}");
    }
}

#[test]
fn passkeys_have_six_digits() {
    for n in [0, 7, 42, 99_999, 100_000, 999_999, 1_000_000, u32::MAX] {
        assert_eq!(six_digits(n), format!("{n:06}"));
    }
}

#[test]
fn displayed_passkeys_are_read_back() {
    for n in [0, 1, 42, 123_456, 999_999, 4_294_967_295] {
        assert_eq!(parse_u32(&six_digits(n)), Some(n));
    }
}
