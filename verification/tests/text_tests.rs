use minitools::text::{
    chars_of, is_whitespace, lines, push_decimal, split_whitespace, string_from_chars,
    string_from_range, trim,
};

#[test]
fn whitespace_is_unicode_white_space() {
    for c in [' ', '\t', '\n', '\r', '\u{b}', '\u{c}', '\u{85}', '\u{a0}', '\u{2003}', '\u{3000}'] {
        assert!(is_whitespace(c), "{:?}", c);
        assert_eq!(is_whitespace(c), c.is_whitespace());
    }
    for c in ['a', '0', '_', '\u{200b}', '\u{feff}'] {
        assert!(!is_whitespace(c), "{:?}", c);
        assert_eq!(is_whitespace(c), c.is_whitespace());
    }
}

#[test]
fn chars_and_back() {
    let v = chars_of("héllo");
    assert_eq!(v, vec!['h', 'é', 'l', 'l', 'o']);
    assert_eq!(string_from_chars(&v), "héllo");
    assert_eq!(string_from_range(&v, 1, 4), "éll");
    assert_eq!(string_from_range(&v, 2, 2), "");
}

#[test]
fn trim_matches_std() {
    for s in ["", "   ", "  a b  ", "\tx\n", "abc", "\u{3000}wide\u{a0}"] {
        assert_eq!(trim(s), s.trim());
    }
}

#[test]
fn split_whitespace_matches_std() {
    for s in ["", "   ", "ls -la  /tmp", "\techo\nhi  ", "one"] {
        let expected: Vec<String> = s.split_whitespace().map(|w| w.to_string()).collect();
        assert_eq!(split_whitespace(s), expected);
        assert!(split_whitespace(s).iter().all(|w| !w.is_empty() && !w.contains(char::is_whitespace)));
    }
}

#[test]
fn lines_match_std() {
    for s in ["", "a", "a\n", "a\nb", "a\r\nb\r\n", "\n", "\n\n", "x\r", "a\n\nb"] {
        let expected: Vec<String> = s.lines().map(|l| l.to_string()).collect();
        assert_eq!(lines(s), expected, "{:?}", s);
    }
}

#[test]
fn decimal_digits() {
    let mut s = String::from("n=");
    push_decimal(&mut s, 0);
    assert_eq!(s, "n=0");
    let mut s = String::new();
    push_decimal(&mut s, 1234567890);
    assert_eq!(s, "1234567890");
    let mut s = String::new();
    push_decimal(&mut s, u64::MAX);
    assert_eq!(s, u64::MAX.to_string());
}
