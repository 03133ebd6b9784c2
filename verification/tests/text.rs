//! Text primitives.

use rightsize_msb::text::{
    contains, decimal_int_text, decimal_text, hex, join, last_word, replace_char, same_text,
    split_on, split_once, starts_with, trim, white_space,
};

#[test]
fn containment_follows_std() {
    for (text, part) in [
        ("", ""),
        ("abc", ""),
        ("abc", "bc"),
        ("abc", "abcd"),
        ("aab", "ab"),
        ("née", "ée"),
        ("abc", "ac"),
    ] {
        assert_eq!(contains(text, part), text.contains(part), "{text:?} {part:?}");
        assert_eq!(starts_with(text, part), text.starts_with(part));
        assert_eq!(same_text(text, part), text == part);
    }
}

#[test]
fn trimming_and_splitting_follow_std() {
    for text in ["", " ", " a b ", "\t\u{a0}x\u{3000}\n", "a\n\nb\n", "x"] {
        assert_eq!(trim(text), text.trim());
        let pieces: Vec<String> = text.split('\n').map(str::to_string).collect();
        assert_eq!(split_on(text, '\n'), pieces);
        assert_eq!(join(&pieces, "\n"), text);
        assert_eq!(
            last_word(text),
            text.split_whitespace().last().unwrap_or_default()
        );
    }
}

#[test]
fn white_space_is_what_std_says() {
    for code in 0..0x3100u32 {
        if let Some(c) = char::from_u32(code) {
            assert_eq!(white_space(c), c.is_whitespace(), "{code:x}");
        }
    }
}

#[test]
fn splitting_once_takes_the_first_occurrence() {
    assert_eq!(
        split_once("a--b--c", "--"),
        Some(("a".to_string(), "b--c".to_string()))
    );
    assert_eq!(split_once("abc", "--"), None);
}

#[test]
fn numbers_and_bytes_in_notation() {
    assert_eq!(decimal_text(0), "0");
    assert_eq!(decimal_text(u64::MAX), u64::MAX.to_string());
    assert_eq!(decimal_int_text(-1), "-1");
    assert_eq!(decimal_int_text(i32::MIN), i32::MIN.to_string());
    assert_eq!(decimal_int_text(127), "127");
    assert_eq!(hex(&[0, 15, 16, 255]), "000f10ff");
    assert_eq!(replace_char("a'b''", '\'', "''"), "a''b''''");
}

#[test]
fn different_numbers_are_written_differently() {
    let shown: Vec<String> = (0..1_000).map(decimal_text).collect();
    for (i, text) in shown.iter().enumerate() {
        assert_eq!(*text, i.to_string());
    }
}
