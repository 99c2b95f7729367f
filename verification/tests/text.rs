use web_service::text::{char_is_white_space, chars_of, str_eq, strip_prefix, trim};

#[test]
fn whitespace_matches_the_standard_library() {
    for c in [' ', '\t', '\n', '\r', '\u{b}', '\u{c}', '\u{85}', '\u{a0}', '\u{1680}', '\u{2000}',
        '\u{200a}', '\u{200b}', '\u{2028}', '\u{2029}', '\u{202f}', '\u{205f}', '\u{3000}',
        '\u{feff}', 'a', '0', '_', '\u{180e}'] {
        assert_eq!(char_is_white_space(c), c.is_whitespace(), "{c:?}");
    }
}

#[test]
fn trim_matches_the_standard_library() {
    for s in ["", "   ", "a", "  a  ", "\t\nab c\r\n", "\u{3000}x\u{a0}", "x y", "é ", " é"] {
        assert_eq!(trim(s), s.trim(), "{s:?}");
    }
}

#[test]
fn trim_twice_is_trim_once() {
    for s in ["  a b  ", "\u{2028}q\u{2029}", "  "] {
        assert_eq!(trim(trim(s)), trim(s));
    }
}

#[test]
fn prefixes() {
    assert_eq!(strip_prefix("Bearer abc", "Bearer "), Some("abc"));
    assert_eq!(strip_prefix("Bearer", "Bearer "), None);
    assert_eq!(strip_prefix("bearer abc", "Bearer "), None);
    assert_eq!(strip_prefix("ééx", "é"), Some("éx"));
    assert_eq!(strip_prefix("abc", ""), Some("abc"));
}

#[test]
fn equality_and_chars() {
    assert!(str_eq("admin", "admin"));
    assert!(!str_eq("admin", "Admin"));
    assert!(!str_eq("admin", "admins"));
    assert!(str_eq("", ""));
    assert_eq!(chars_of("aé"), vec!['a', 'é']);
}
