use opaq::help::to_ascii_lowercase;
use opaq::number::{fmt_u64, parse_u64};
use opaq::text::{chars_of, trim_chars, Strip};

fn chars(s: &str) -> Vec<char> {
    s.chars().collect()
}

#[test]
fn u64_reading_matches_str_parse() {
    let cases = [
        "0", "7", "+7", "-7", "+", "-", "", " 1", "1 ", "007", "18446744073709551615",
        "18446744073709551616", "99999999999999999999999", "1_000", "\u{661}",
    ];
    for c in cases {
        assert_eq!(parse_u64(&chars(c)), c.parse::<u64>().ok(), "input {:?}", c);
    }
}

#[test]
fn decimal_writing_matches_display() {
    for n in [0u64, 9, 10, 255, 1_700_000_000, u64::MAX] {
        assert_eq!(fmt_u64(n), n.to_string());
    }
}

#[test]
fn whitespace_trim_matches_str_trim() {
    let cases = ["  a b  ", "\t\n\r\u{b}\u{c}x\u{85}", "\u{a0}\u{1680}y\u{2000}\u{200a}", "\u{2028}\u{2029}\u{202f}\u{205f}\u{3000}", "\u{200b}z\u{180e}", ""];
    for c in cases {
        let t: String = trim_chars(&chars_of(c), &Strip::Whitespace).into_iter().collect();
        assert_eq!(t, c.trim(), "input {:?}", c);
    }
}

#[test]
fn ascii_lowering_matches_std() {
    for c in ["ADMIN", "Admin", "\u{c9}T\u{c9}", "mIxEd-123"] {
        let l: String = to_ascii_lowercase(c).into_iter().collect();
        assert_eq!(l, c.to_ascii_lowercase());
    }
}
