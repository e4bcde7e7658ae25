use gvac::text::{
    chars_of, concat_str, decimal_string, eq_ignore_ascii_case_str, is_blank_str, is_whitespace,
    starts_with_str, str_eq, string_from_chars, strip_trailing_str, trim_str,
};

#[test]
fn whitespace_matches_std_for_every_char() {
    for u in 0u32..=0x10FFFF {
        if let Some(c) = char::from_u32(u) {
            assert_eq!(is_whitespace(c), c.is_whitespace(), "char {:#x}", u);
        }
    }
}

#[test]
fn trim_matches_std() {
    let cases = [
        "", " ", "  a  ", "\t\nabc\r\n", "\u{3000}x\u{2003}", "a b", "\u{85}ü\u{A0}", "x",
        "  \u{200B}  ",
    ];
    for s in cases {
        assert_eq!(trim_str(s), s.trim(), "input {:?}", s);
        assert_eq!(is_blank_str(s), s.trim().is_empty());
    }
}

#[test]
fn trim_is_idempotent_on_examples() {
    for s in ["  a b  ", "\u{2000}z", "", "\n"] {
        let once = trim_str(s);
        assert_eq!(trim_str(&once), once);
    }
}

#[test]
fn strip_trailing_matches_std() {
    for s in ["a///", "///", "", "a/b/", "a / ", "/x"] {
        assert_eq!(strip_trailing_str(s, '/'), s.trim_end_matches('/'));
    }
}

#[test]
fn starts_with_and_eq() {
    assert!(starts_with_str("https://x", "https://"));
    assert!(!starts_with_str("http:/", "http://"));
    assert!(starts_with_str("abc", ""));
    assert!(str_eq("héllo", "héllo"));
    assert!(!str_eq("a", "ab"));
    assert!(!str_eq("ab", "ac"));
}

#[test]
fn ascii_case_insensitive() {
    assert!(eq_ignore_ascii_case_str("TrUe", "true"));
    assert!(!eq_ignore_ascii_case_str("truE ", "true"));
    assert!(!eq_ignore_ascii_case_str("ÄB", "äb"));
    assert_eq!(eq_ignore_ascii_case_str("ÄB", "Äb"), "ÄB".eq_ignore_ascii_case("Äb"));
}

#[test]
fn decimal_formatting() {
    for n in [0u64, 7, 10, 22, 65535, 1234567890, u64::MAX] {
        assert_eq!(decimal_string(n), n.to_string());
    }
}

#[test]
fn chars_round_trip_and_concat() {
    let v = chars_of("añb");
    assert_eq!(v, vec!['a', 'ñ', 'b']);
    assert_eq!(string_from_chars(&v), "añb");
    assert_eq!(concat_str("ab", "cd"), "abcd");
}
