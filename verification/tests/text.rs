use statusphere::text::{
    chars_eq, chars_eq_ignore_case, chars_of, i64_to_decimal, is_whitespace, parse_i64,
    split_chars, starts_with, str_eq, string_of, to_ascii_lower, to_lower, trim_chars,
};
use statusphere::time::Timestamp;

fn v(s: &str) -> Vec<char> {
    s.chars().collect()
}

#[test]
fn chars_round_trip() {
    assert_eq!(chars_of("héllo 🚀"), v("héllo 🚀"));
    assert_eq!(chars_of(""), Vec::<char>::new());
    let chars = v("héllo 🚀");
    assert_eq!(string_of(&chars, 0, chars.len()), "héllo 🚀");
    assert_eq!(string_of(&chars, 1, 3), "él");
    assert_eq!(string_of(&chars, 2, 2), "");
}

#[test]
fn white_space_is_what_std_says() {
    for n in 0..=0x3100u32 {
        if let Some(c) = char::from_u32(n) {
            assert_eq!(is_whitespace(c), c.is_whitespace(), "U+{:04X}", n);
        }
    }
    assert!(!is_whitespace('\u{feff}'));
    assert!(!is_whitespace('\u{10ffff}'));
}

#[test]
fn trim_is_what_std_says() {
    for s in ["", " ", "a", " a ", "\t\n a b \r\n", "\u{a0}x\u{2003}", "  ", "a  ", "  a", "\u{3000}"] {
        assert_eq!(trim_chars(&v(s)), v(s.trim()), "{:?}", s);
    }
}

#[test]
fn split_is_what_std_says() {
    for s in ["", ",", "a", "a,b", "a,,b", ",a,", "a,b,c,", ",,"] {
        let expected: Vec<Vec<char>> = s.split(',').map(v).collect();
        assert_eq!(split_chars(&v(s), ','), expected, "{:?}", s);
    }
}

#[test]
fn ascii_case_is_folded_and_nothing_else() {
    for n in 0..=0x250u32 {
        if let Some(c) = char::from_u32(n) {
            assert_eq!(to_ascii_lower(c), c.to_ascii_lowercase());
        }
    }
    assert_eq!(to_lower(&v("AbC-É")), v("abc-É"));
    assert!(chars_eq_ignore_case(&v("Status.Created"), &v("sTATUS.cREATED")));
    assert!(!chars_eq_ignore_case(&v("É"), &v("é")));
    assert!(!chars_eq_ignore_case(&v("ab"), &v("abc")));
    assert!(!chars_eq_ignore_case(&v("@"), &v("`")));
    assert!(!chars_eq_ignore_case(&v("["), &v("{")));
}

#[test]
fn comparisons() {
    assert!(chars_eq(&v("abc"), &v("abc")));
    assert!(!chars_eq(&v("abc"), &v("abd")));
    assert!(!chars_eq(&v("abc"), &v("ab")));
    assert!(str_eq("", ""));
    assert!(str_eq("🚀", "🚀"));
    assert!(!str_eq("a", "A"));
    assert!(starts_with(&v("http://localhost:8080"), &v("http://localhost")));
    assert!(starts_with(&v("abc"), &v("")));
    assert!(starts_with(&v("abc"), &v("abc")));
    assert!(!starts_with(&v("ab"), &v("abc")));
    assert!(!starts_with(&v("xbc"), &v("ab")));
}

#[test]
fn decimal_is_what_std_says() {
    for n in [0i64, 1, 9, 10, 11, 99, 100, 101, -1, -9, -10, 1234567890, i64::MAX, i64::MIN, i64::MIN + 1] {
        assert_eq!(i64_to_decimal(n), n.to_string());
    }
}

#[test]
fn integers_parse_as_std_says() {
    for s in [
        "0", "-0", "+0", "7", "-7", "+7", "0042", "9223372036854775807", "9223372036854775808",
        "-9223372036854775808", "-9223372036854775809", "92233720368547758070", "", "-", "+",
        "+-1", "1-", "1 ", " 1", "1_000", "١", "12a", "a12",
        "000000000000000000000000000000000000009223372036854775807",
    ] {
        assert_eq!(parse_i64(&v(s)), s.parse::<i64>().ok(), "{:?}", s);
    }
}

#[test]
fn timestamps_order_by_second_then_fraction() {
    let t = |secs, nanos| Timestamp { secs, nanos };
    assert!(t(2, 0).is_after(&t(1, 999)));
    assert!(t(1, 1).is_after(&t(1, 0)));
    assert!(!t(1, 1).is_after(&t(1, 1)));
    assert!(!t(1, 0).is_after(&t(1, 1)));
    assert!(!t(-1, 5).is_after(&t(0, 0)));
    assert_eq!(Timestamp::from_secs(7), t(7, 0));
}
