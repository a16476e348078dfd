//! Text helpers, against what the standard library does.

use azalea::bot::startup::command_version_summary;
use azalea::pipeline::resolve::extension_from_url;
use azalea::text::{
    before_any_of, char_is_control, char_is_white, chars_of, decimal_of, first_piece, float_text,
    last_piece, lines_of, lower_str, padded_decimal_of, parse_i64, parse_u64, same,
    signed_decimal_of, split_once, split_str, str_contains, str_ends_with, str_starts_with,
    string_of, strip_prefix, strip_suffix, trim_end_char_str, trim_str, upper_str, words_of,
};

const SAMPLES: [&str; 14] = [
    "",
    " ",
    "a",
    "plain text",
    "  padded\t\n",
    "\u{a0}nbsp\u{3000}",
    "Ünïcode ÄÖ",
    "a=b=c",
    "=",
    "line\r\nline\n\nlast",
    "ends\n",
    "\r",
    "x y  z",
    "abcabc",
];

#[test]
fn helpers_agree_with_the_standard_library() {
    for s in SAMPLES {
        assert_eq!(trim_str(s), s.trim(), "{s:?}");
        assert_eq!(lower_str(s), s.to_ascii_lowercase(), "{s:?}");
        assert_eq!(upper_str(s), s.to_ascii_uppercase(), "{s:?}");
        assert_eq!(string_of(&chars_of(s)), s);
        assert_eq!(lines_of(s), s.lines().collect::<Vec<_>>(), "{s:?}");
        assert_eq!(words_of(s), s.split_whitespace().collect::<Vec<_>>(), "{s:?}");
        assert_eq!(split_str(s, '='), s.split('=').collect::<Vec<_>>(), "{s:?}");
        assert_eq!(
            split_once(s, '='),
            s.split_once('=').map(|(a, b)| (a.to_string(), b.to_string()))
        );
        assert_eq!(first_piece(s, ' '), s.split(' ').next().unwrap());
        assert_eq!(last_piece(s, ' '), s.rsplit(' ').next().unwrap());
        assert_eq!(trim_end_char_str(s, '\n'), s.trim_end_matches('\n'));
        for t in SAMPLES {
            assert_eq!(same(s, t), s == t);
            assert_eq!(str_contains(s, t), s.contains(t), "{s:?} {t:?}");
            assert_eq!(str_starts_with(s, t), s.starts_with(t));
            assert_eq!(str_ends_with(s, t), s.ends_with(t));
            assert_eq!(strip_prefix(s, t).as_deref(), s.strip_prefix(t));
            assert_eq!(strip_suffix(s, t).as_deref(), s.strip_suffix(t));
        }
    }
    assert_eq!(string_of(&before_any_of(&chars_of("a?b#c"), &['#', '?'])), "a");
}

#[test]
fn characters_are_classed_as_unicode_does() {
    for code in 0..0x3100u32 {
        if let Some(c) = char::from_u32(code) {
            assert_eq!(char_is_white(c), c.is_whitespace(), "{code:x}");
            assert_eq!(char_is_control(c), c.is_control(), "{code:x}");
        }
    }
}

#[test]
fn numbers_agree_with_the_standard_library() {
    let texts = [
        "", "0", "+0", "-0", "-", "+", "00012", "18446744073709551615", "18446744073709551616",
        "9223372036854775807", "9223372036854775808", "-9223372036854775808",
        "-9223372036854775809", "12a", " 1", "1_000",
    ];
    for t in texts {
        assert_eq!(parse_u64(t), t.parse::<u64>().ok(), "{t}");
        assert_eq!(parse_i64(t), t.parse::<i64>().ok(), "{t}");
    }
    for n in [0u64, 7, 10, 99, 1_000_000, u64::MAX] {
        assert_eq!(decimal_of(n), n.to_string());
        assert_eq!(parse_u64(&decimal_of(n)), Some(n));
        assert_eq!(padded_decimal_of(n, 3), format!("{n:03}"));
    }
    for n in [0i32, -1, 5, i32::MIN, i32::MAX] {
        assert_eq!(signed_decimal_of(n), n.to_string());
    }
}

#[test]
fn fractions_agree_with_the_standard_library() {
    let texts = [
        "", ".", "1", "1.", ".5", "1.5", "-1.5", "+.5e3", "1e", "e1", "1e+5", "1E-5", "inf",
        "-Infinity", "nan", "NaN", "infin", "N/A", "1.2.3", "--1", "1e5.0", " 1", "0x10", "1_0",
        "1e+", "+", "-.", "1e999", "∞",
    ];
    for t in texts {
        assert_eq!(float_text(t), t.parse::<f64>().is_ok(), "{t}");
    }
}

#[test]
fn broken_bytes_still_read() {
    assert_eq!(command_version_summary(b" \n v\xff1 \n", b"ignored"), "v\u{fffd}1");
    assert_eq!(command_version_summary(b"", b"\n err 2\n"), "err 2");
    assert_eq!(command_version_summary(b"", b" "), "unknown-version");
    assert_eq!(extension_from_url("u/ÄÖ.ÉX"), Some("éx".to_string()));
}
