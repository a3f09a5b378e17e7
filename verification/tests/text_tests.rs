use maxminddb_polars::text::{decimal_string, push_decimal, push_quoted, str_equal, strip_prefix};

#[test]
fn decimals_are_written_like_display() {
    for value in [0i128, 7, -7, 10, 1234567890, i128::MAX, i128::MIN, i64::MIN as i128] {
        assert_eq!(decimal_string(value), value.to_string());
    }
    let mut out = "n=".to_owned();
    push_decimal(&mut out, -42);
    assert_eq!(out, "n=-42");
}

#[test]
fn quoting_escapes_like_debug_for_ascii() {
    for s in ["", "plain", "a\"b", "back\\slash", "line\nbreak\ttab\r", "ünïcode", "nul\0", "\u{1}\u{1b}\u{7f}\u{1f}"] {
        let mut out = String::new();
        push_quoted(&mut out, s);
        assert_eq!(out, format!("{s:?}"));
    }
}

#[test]
fn strings_compare_by_characters() {
    assert!(str_equal("abc", "abc"));
    assert!(!str_equal("abc", "abd"));
    assert!(!str_equal("abc", "ab"));
    assert!(str_equal("", ""));
}

#[test]
fn prefixes_strip_only_at_the_start() {
    assert_eq!(strip_prefix("GeoIP2-City", "GeoIP2-"), Some("City"));
    assert_eq!(strip_prefix("GeoIP2-City", "City"), None);
    assert_eq!(strip_prefix("ab", "abc"), None);
    assert_eq!(strip_prefix("ab", ""), Some("ab"));
}

#[test]
fn quoting_escapes_like_debug_outside_ascii() {
    for s in ["e\u{301}", "\u{200b}zero", "\u{feff}", "日本", "\u{85}", "'single'", "\u{10ffff}"] {
        let mut out = String::new();
        push_quoted(&mut out, s);
        assert_eq!(out, format!("{s:?}"));
    }
    let mut out = String::new();
    push_quoted(&mut out, "a\u{301}");
    assert_eq!(out, "\"a\\u{301}\"");
}
