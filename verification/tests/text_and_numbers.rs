//! Characters, numbers and sizes.

use hpn::be::{from_be, to_be};
use hpn::byte_size::human_bytes;
use hpn::parse::{parse_digits, parse_number, split, words_of};
use hpn::rounding::{round_half_even, round_to_double, scale_by_seconds};
use hpn::text::{
    chars_of, is_whitespace, last_word_of, line_at, lowered, push_decimal, push_hexadecimal,
    same_text, trimmed,
};

#[test]
fn white_space_is_that_of_unicode() {
    for u in 0..=0x10ffff {
        if let Some(c) = char::from_u32(u) {
            assert_eq!(is_whitespace(c), c.is_whitespace(), "{:x}", u);
        }
    }
}

#[test]
fn words_lines_and_pieces_are_found() {
    for text in ["", " ", "a", " a  b\tc ", "\u{2003}x\u{a0}y\r\n", "no space"] {
        let chars = chars_of(text);
        let expected: Vec<String> = text.split_whitespace().map(|w| w.to_string()).collect();
        let words: Vec<String> =
            words_of(&chars, 0, chars.len()).iter().map(|w| w.iter().collect()).collect();
        assert_eq!(words, expected);
        assert_eq!(
            last_word_of(&chars, 0, chars.len()),
            text.split_whitespace().last().unwrap_or("")
        );
        assert_eq!(trimmed(text), text.trim());
        let pieces: Vec<String> = split(&chars, 'b').iter().map(|p| p.iter().collect()).collect();
        let parts: Vec<String> = text.split('b').map(|p| p.to_string()).collect();
        assert_eq!(pieces, parts);
        assert_eq!(lowered(text), text.to_ascii_lowercase());
    }
    let chars = chars_of("ab\r\ncd");
    assert_eq!(line_at(&chars, 0), (2, 4));
    assert_eq!(line_at(&chars, 4), (6, 6));
    assert!(same_text("h\u{e9}", "h\u{e9}"));
    assert!(!same_text("he", "h\u{e9}"));
}

#[test]
fn numbers_are_read_and_written() {
    for n in [0u64, 7, 10, 99, 1000, 0xfedc_ba98, u64::MAX] {
        let (mut d, mut h) = (String::new(), String::new());
        push_decimal(&mut d, n);
        push_hexadecimal(&mut h, n);
        assert_eq!(d, n.to_string());
        assert_eq!(h, format!("{:x}", n));
        assert_eq!(parse_number(&chars_of(&d), u64::MAX), Some(n));
        assert_eq!(parse_digits(&chars_of(&h), 0, 16, u64::MAX), Some(n));
    }
    for text in ["", "+", "+5", "-5", " 5", "5 ", "00012", "18446744073709551616", "\u{0665}"] {
        assert_eq!(parse_number(&chars_of(text), u64::MAX), text.parse::<u64>().ok(), "{}", text);
    }
    assert_eq!(parse_number(&chars_of("256"), 255), None);
}

#[test]
fn bytes_come_in_network_order() {
    assert_eq!(to_be(0x0102_0304, 4), vec![1, 2, 3, 4]);
    assert_eq!(from_be(&vec![1, 2, 3, 4]), 0x0102_0304);
    assert_eq!(from_be(&to_be(u128::MAX - 5, 16)), u128::MAX - 5);
}

#[test]
fn sizes_are_rounded_as_doubles_are_printed() {
    for n in [
        0u64, 1, 1023, 1024, 1029, 1536, 10_485, 1_048_575, 1_048_576, 5_242_881, 1_073_741_823,
        1_073_741_824, 123_456_789_012, u64::MAX,
    ] {
        let expected = if n >= 1 << 30 {
            format!("{:.2} GB", n as f64 / 1_073_741_824.0)
        } else if n >= 1 << 20 {
            format!("{:.2} MB", n as f64 / 1_048_576.0)
        } else if n >= 1 << 10 {
            format!("{:.2} KB", n as f64 / 1024.0)
        } else {
            format!("{} B", n)
        };
        assert_eq!(human_bytes(n, " "), expected);
    }
}

#[test]
fn products_are_rounded_as_doubles_are() {
    assert_eq!(round_half_even(5, 2), 2);
    assert_eq!(round_half_even(7, 2), 4);
    for n in [0u64, 1, (1 << 53) + 1, (1 << 53) + 3, u64::MAX, 123_456_789_123_456_789] {
        assert_eq!(round_to_double(u128::from(n)), (n as f64) as u128);
    }
    for rate in [1u64, 3, 1000, 125_000_000, u64::MAX] {
        for micros in [1u64, 7, 999_999, 1_000_000, 1_500_000, 3_600_000_000] {
            let expected = ((rate as f64) * (micros as f64 / 1_000_000.0)) as u64;
            assert_eq!(scale_by_seconds(rate, micros), expected, "{} {}", rate, micros);
        }
    }
}
