//! Text: searching, splitting, joining, trimming and numbers.
use rini::text::{
    chars_of, contains, find, format_decimal, format_signed, from_chars, join, parse_number,
    same_text, slice, split, trim,
};

#[test]
fn joining_undoes_splitting() {
    for text in ["a,b,c", "", ",", "a,,b,", "no separator"] {
        assert_eq!(join(&split(text, ','), ","), text);
    }
    assert_eq!(split("a,b", ','), ["a", "b"]);
}

#[test]
fn trimming_takes_white_space_off_both_ends() {
    assert_eq!(trim("  a b\t\n"), "a b");
    assert_eq!(trim("\u{3000}x\u{a0}"), "x");
    assert_eq!(trim(" \t "), "");
}

#[test]
fn white_space_is_twenty_five_characters() {
    let white: Vec<u32> = ('\0'..=char::MAX)
        .filter(|c| trim(&c.to_string()).is_empty())
        .map(|c| c as u32)
        .collect();
    let mut expected: Vec<u32> = (9..=13).chain([32, 0x85, 0xA0, 0x1680]).collect();
    expected.extend(0x2000..=0x200A);
    expected.extend([0x2028, 0x2029, 0x202F, 0x205F, 0x3000]);
    assert_eq!(white, expected);
    assert_eq!(white.len(), 25);
}

#[test]
fn numbers_are_written_and_read_back() {
    for n in [0u64, 7, 10, 99, 100, u64::MAX] {
        assert_eq!(format_decimal(n), n.to_string());
    }
    assert_eq!(format_signed(i64::MIN), i64::MIN.to_string());
    for n in [0i64, -1, 12, 100, -100] {
        assert_eq!(format_signed(n), n.to_string());
        assert_eq!(parse_number(&chars_of(&format_signed(n)), true, -100, 100), Some(n));
    }
    assert_eq!(parse_number(&chars_of("101"), true, -100, 100), None);
    assert_eq!(parse_number(&chars_of("12x"), true, -100, 100), None);
    assert_eq!(parse_number(&chars_of("-5"), false, 0, 100), None);
    assert_eq!(parse_number(&chars_of("+5"), false, 0, 100), Some(5));
    assert_eq!(parse_number(&chars_of(""), true, -100, 100), None);
}

#[test]
fn the_first_occurrence_is_found() {
    let text = chars_of("abcabc");
    assert_eq!(find(&text, &chars_of("bc"), 0), Some(1));
    assert_eq!(find(&text, &chars_of("bc"), 2), Some(4));
    assert_eq!(find(&text, &chars_of("cb"), 0), None);
    assert!(contains("Wallpaper-1", "Wallpaper") && !contains("wallpaper", "Wallpaper"));
}

#[test]
fn texts_and_characters_go_both_ways() {
    let chars = chars_of("héllo");
    assert_eq!(chars.len(), 5);
    assert_eq!(from_chars(&chars), "héllo");
    assert_eq!(from_chars(&slice(&chars, 1, 3)), "él");
    assert!(same_text("é", "é") && !same_text("e", "é"));
}
