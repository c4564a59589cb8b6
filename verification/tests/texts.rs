//! Text helpers and units, held against those of the standard library.

use mtui::text::alnum;
use mtui::text::chars_of;
use mtui::text::decimal;
use mtui::text::digit;
use mtui::text::find_char;
use mtui::text::find_str;
use mtui::text::parse_unsigned;
use mtui::text::rfind_char;
use mtui::text::split_lines;
use mtui::text::split_words;
use mtui::text::string_of;
use mtui::text::trimmed;
use mtui::text::white;
use mtui::units::fmt_bytes;
use mtui::units::fmt_rate;

const SAMPLES: [&str; 12] = [
    "", " ", "a", " a b ", "\ta\u{3000}", "a\nb\r\nc\n", "\n\n", "a\r", "\u{85}x\u{a0}", "ab ab:ab", "x::y", "日本 語",
];

#[test]
fn kinds_of_characters() {
    for c in '\0'..=char::MAX {
        assert_eq!(white(c), c.is_whitespace());
        assert_eq!(digit(c), c.is_ascii_digit());
        assert_eq!(alnum(c), c.is_ascii_alphanumeric());
    }
}

#[test]
fn splitting_and_trimming() {
    for s in SAMPLES {
        let chars = chars_of(s);
        assert_eq!(string_of(&chars), s);
        assert_eq!(string_of(trimmed(&chars)), s.trim());
        let words: Vec<String> = split_words(&chars).into_iter().map(string_of).collect();
        let expected: Vec<&str> = s.split_whitespace().collect();
        assert_eq!(words, expected);
        let lines: Vec<String> = split_lines(&chars).into_iter().map(string_of).collect();
        let expected: Vec<&str> = s.split('\n').collect();
        assert_eq!(lines, expected);
    }
}

#[test]
fn searching() {
    for s in SAMPLES {
        let chars = chars_of(s);
        for c in ['a', 'b', ':', ' '] {
            let first = chars.iter().position(|x| *x == c).unwrap_or(chars.len());
            assert_eq!(find_char(&chars, c), first);
            assert_eq!(rfind_char(&chars, c), chars.iter().rposition(|x| *x == c));
        }
        for pat in ["", "ab", ":a", "::"] {
            let expected = s.find(pat).map(|i| s[..i].chars().count());
            assert_eq!(find_str(&chars, pat), expected, "{:?} in {:?}", pat, s);
        }
    }
}

#[test]
fn numbers() {
    for s in ["", "0", "7", "007", "+7", "+", "-1", "65535", "65536", "4294967295", "4294967296", "1x", "++1", "٣"] {
        let chars = chars_of(s);
        assert_eq!(parse_unsigned(&chars, 65535), s.parse::<u16>().ok().map(|n| n as u32), "{}", s);
        assert_eq!(parse_unsigned(&chars, u32::MAX), s.parse::<u32>().ok(), "{}", s);
    }
    for n in [0, 9, 10, 65535, 1234567890, u64::MAX] {
        assert_eq!(decimal(n), n.to_string());
    }
}

fn float_rate(bytes: u64) -> String {
    let b = bytes as f64;
    if b >= 1024.0 * 1024.0 {
        format!("{:.1} MB/s", b / 1024.0 / 1024.0)
    } else if b >= 1024.0 {
        format!("{:.1} KB/s", b / 1024.0)
    } else {
        format!("{} B/s", b)
    }
}

#[test]
fn rates_are_those_of_double_precision() {
    let mut n: u64 = 0;
    while n < 3_000_000 {
        assert_eq!(fmt_rate(n), float_rate(n));
        n += 7;
    }
    for n in 0..5000 {
        assert_eq!(fmt_rate(n), float_rate(n));
    }
    for shift in 20..64 {
        for delta in [0u64, 1, 2, 3, 51, 52, 53, 511, 512, 513, 1023, 1024, 1025, 1536, 52429, 157286, 104858] {
            for n in [
                (1u64 << shift).wrapping_add(delta),
                (1u64 << shift).wrapping_sub(delta),
                (1u64 << shift).wrapping_mul(3).wrapping_add(delta),
            ] {
                assert_eq!(fmt_rate(n), float_rate(n), "{}", n);
            }
        }
    }
    for tenth in 0..200u64 {
        let n = (u64::MAX / 200) * tenth + 104857;
        assert_eq!(fmt_rate(n), float_rate(n), "{}", n);
        let tie = (1u64 << 20) / 20 * (2 * tenth + 1) + (1u64 << 20) * 5;
        assert_eq!(fmt_rate(tie), float_rate(tie), "{}", tie);
    }
    assert_eq!(fmt_rate(u64::MAX), float_rate(u64::MAX));
}

#[test]
fn amounts() {
    assert_eq!(fmt_bytes(0), "0 B");
    assert_eq!(fmt_bytes(1023), "1023 B");
    assert_eq!(fmt_bytes(1024), "1.0 KB");
    assert_eq!(fmt_bytes(1280), "1.2 KB");
    assert_eq!(fmt_bytes(1792), "1.8 KB");
    assert_eq!(fmt_bytes(1048575), "1024.0 KB");
    assert_eq!(fmt_bytes(1572864), "1.5 MB");
    assert_eq!(fmt_rate(1572864), "1.5 MB/s");
    assert_eq!(fmt_rate(9007199254740993), "8589934592.0 MB/s");
}
