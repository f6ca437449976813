use baseline_core::decimal::parse_decimal;
use baseline_core::hex::{hex_char, hex_digit, parse_i32, parse_i64, parse_u8, push_byte_text, word_hex};
use baseline_core::lines::{byte_len, char_width, cut_chars, split_lines};
use baseline_core::text::{
    ascii_upper, chars_of, concat2, concat3, contains, decimal, ends_with_ignore_case,
    eq_ignore_case, is_whitespace, join, natural, same_text, starts_with, strip_whitespace,
    text_of, trim,
};

fn samples() -> Vec<&'static str> {
    vec![
        "", " ", "a", "A b", " \t x\u{a0}\n", "E225", "+", "-", "+7", "-7", "-0", "00", "ff", "FF",
        "+fF", "100", "80000000", "7fffffff", "-80000000", "-80000001", "7fffffffffffffff",
        "8000000000000000", "-8000000000000000", "12g", "g", "1 2", "é", "3.5", "--1", "+-1",
        "9223372036854775807", "9223372036854775808", "-9223372036854775808",
        "-9223372036854775809", "0000000000000000000000001", "\u{2003}q\u{3000}",
    ]
}

#[test]
fn hexadecimal_numbers_are_read_as_std_reads_them() {
    for s in samples() {
        assert_eq!(parse_i32(s), i32::from_str_radix(s, 16).ok(), "{s}");
        assert_eq!(parse_i64(s), i64::from_str_radix(s, 16).ok(), "{s}");
        let expected = u8::from_str_radix(s, 16);
        match (parse_u8(s), expected) {
            (Ok(a), Ok(b)) => assert_eq!(a, b, "{s}"),
            (Err(a), Err(b)) => assert_eq!(a.message(), b.to_string(), "{s}"),
            (a, b) => panic!("{s}: {a:?} and {b:?}"),
        }
    }
    for s in ["-1", "1ff", "+ff", "0000ff", "f-"] {
        let expected = u8::from_str_radix(s, 16);
        match (parse_u8(s), expected) {
            (Ok(a), Ok(b)) => assert_eq!(a, b, "{s}"),
            (Err(a), Err(b)) => assert_eq!(a.message(), b.to_string(), "{s}"),
            (a, b) => panic!("{s}: {a:?} and {b:?}"),
        }
    }
}

#[test]
fn decimal_numbers_are_read_as_std_reads_them() {
    for s in samples() {
        assert_eq!(parse_decimal(&chars_of(s)), s.parse::<i64>().ok(), "{s}");
    }
    for n in [0, 7, -7, 10, 999, i64::MAX, i64::MIN, i64::MIN + 1] {
        assert_eq!(decimal(n), n.to_string());
        assert_eq!(parse_decimal(&chars_of(&decimal(n))), Some(n));
    }
    for n in [0, 9, 10, u64::MAX] {
        assert_eq!(natural(n), n.to_string());
    }
}

#[test]
fn bytes_and_words_as_text() {
    for n in 0..=255u8 {
        let mut text = String::new();
        push_byte_text(&mut text, n);
        assert_eq!(text, format!("{n:02X}"));
        assert_eq!(parse_u8(&text), Ok(n));
    }
    for n in [0u16, 1, 0xAB, 0x0FFF, 0xE225, u16::MAX] {
        assert_eq!(word_hex(n), format!("{n:04X}"));
    }
    for n in 0..16u8 {
        assert_eq!(hex_digit(hex_char(n)), Some(n));
    }
    assert_eq!(hex_digit('f'), Some(15));
    assert_eq!(hex_digit('G'), None);
}

#[test]
fn whitespace_is_that_of_std() {
    for n in 0..=0x10_FFFFu32 {
        if let Some(c) = char::from_u32(n) {
            assert_eq!(is_whitespace(c), c.is_whitespace(), "{n:x}");
        }
    }
    for s in samples() {
        let stripped: Vec<char> = s.chars().filter(|c| !c.is_whitespace()).collect();
        assert_eq!(strip_whitespace(s), stripped);
        assert_eq!(text_of(&trim(s)), s.trim());
    }
}

#[test]
fn string_operations_agree_with_std() {
    for a in samples() {
        assert_eq!(text_of(&chars_of(a)), a);
        for b in samples() {
            assert_eq!(eq_ignore_case(a, b), a.eq_ignore_ascii_case(b));
            assert_eq!(same_text(a, b), a == b);
            assert_eq!(starts_with(a, b), a.starts_with(b));
            assert_eq!(contains(a, b), a.contains(b));
            assert_eq!(
                ends_with_ignore_case(a, b),
                a.to_ascii_lowercase().ends_with(&b.to_ascii_lowercase())
            );
            assert_eq!(concat2(a, b), format!("{a}{b}"));
            assert_eq!(concat3(a, b, a), format!("{a}{b}{a}"));
        }
    }
    for n in 0..0x300u32 {
        let c = char::from_u32(n).unwrap();
        assert_eq!(ascii_upper(c), c.to_ascii_uppercase());
    }
    let parts = vec!["a".to_string(), "".to_string(), "b".to_string()];
    assert_eq!(join(&parts, ", "), parts.join(", "));
    assert_eq!(join(&parts[..1], ", "), "a");
    assert_eq!(join(&[], ", "), "");
}

#[test]
fn lines_are_split_as_std_splits_them() {
    for s in [
        "", "\n", "a", "a\n", "a\nb", "a\r\nb\r\n", "\r", "a\r", "\n\n", "a\n\nb\n", "a\rb\n", "\r\n",
    ] {
        let expected: Vec<&str> = s.lines().collect();
        assert_eq!(split_lines(s), expected, "{s:?}");
    }
}

#[test]
fn lengths_in_bytes() {
    for s in ["", "a", "é", "€", "😀", "aé€😀z"] {
        assert_eq!(byte_len(&chars_of(s)), s.len() as i64);
    }
    for c in ['a', 'é', '€', '😀', '\u{7f}', '\u{80}', '\u{7ff}', '\u{800}', '\u{ffff}'] {
        assert_eq!(char_width(c), c.len_utf8());
    }
    assert_eq!(cut_chars(&chars_of("aéz"), 3), 2);
    assert_eq!(cut_chars(&chars_of("aéz"), 0), 0);
}
