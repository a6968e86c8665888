use kindle_button_mapper::text::{
    has_any, has_prefix, is_white_space, parse_unsigned, same, same_lowered, split, split_once,
    split_words, to_decimal, to_signed_decimal, trim,
};

const SAMPLES: [&str; 12] = [
    "",
    " ",
    "a",
    "  a b  ",
    "\u{a0}a\u{3000}b\u{2003}",
    "a.b..c",
    ".",
    "..",
    "/x/y/",
    "é è",
    "\u{200b}a",
    "one\ttwo\r\nthree",
];

#[test]
fn white_space_is_unicode_white_space() {
    for c in '\0'..=char::MAX {
        assert_eq!(is_white_space(c), c.is_whitespace(), "{:?}", c);
    }
}

#[test]
fn texts_are_taken_apart_as_std_does() {
    for s in SAMPLES {
        assert_eq!(trim(s), s.trim());
        let words: Vec<String> = s.split_whitespace().map(String::from).collect();
        assert_eq!(split_words(s), words);
        for sep in ['.', '/', ' '] {
            let pieces: Vec<String> = s.split(sep).map(String::from).collect();
            assert_eq!(split(s, sep), pieces);
            let halves = s.split_once(sep).map(|(a, b)| (a.to_string(), b.to_string()));
            assert_eq!(split_once(s, sep), halves);
        }
        for t in SAMPLES {
            assert_eq!(same(s, t), s == t);
            assert_eq!(has_prefix(s, t), s.starts_with(t));
            assert_eq!(has_any(s, t), s.contains(|c| t.contains(c)));
            assert_eq!(same_lowered(s, t), s.to_ascii_lowercase() == t);
        }
    }
    assert!(same_lowered("TRUE", "true"));
    assert!(!same_lowered("É", "é"));
}

#[test]
fn numbers_are_read_as_std_does() {
    for s in [
        "", "+", "-", "0", "+0", "-0", "00012", "65535", "65536", "99999999999999999999999",
        "18446744073709551615", "18446744073709551616", "1a", " 1", "1 ", "++1", "+-1", "ff",
        "FFFF", "fffff", "g", "１",
    ] {
        assert_eq!(parse_unsigned(s, 10, 0xffff), s.parse::<u16>().ok().map(u64::from), "{}", s);
        assert_eq!(parse_unsigned(s, 10, u64::MAX), s.parse::<u64>().ok(), "{}", s);
        assert_eq!(
            parse_unsigned(s, 16, 0xffff),
            u16::from_str_radix(s, 16).ok().map(u64::from),
            "{}",
            s
        );
    }
}

#[test]
fn numbers_are_written() {
    for n in [0, 9, 10, 8080, u64::MAX] {
        assert_eq!(to_decimal(n), n.to_string());
        assert_eq!(parse_unsigned(&to_decimal(n), 10, u64::MAX), Some(n));
    }
    for n in [0, -1, 7, -10, i32::MIN, i32::MAX] {
        assert_eq!(to_signed_decimal(n), n.to_string());
    }
}
