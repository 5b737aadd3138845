use container_runtime::text::{
    chars_of, is_blank, owned, parse_u64, push_decimal, push_signed_decimal, text_eq, text_le,
    trimmed,
};

#[test]
fn decimal_notation_matches_std() {
    for n in [0u64, 7, 10, 99, 100, 12345, u64::MAX] {
        let mut s = String::new();
        push_decimal(&mut s, n);
        assert_eq!(s, n.to_string());
        assert_eq!(parse_u64(&s), Some(n));
    }
    for v in [0i64, -1, 42, i64::MIN, i64::MAX] {
        let mut s = String::from("x");
        push_signed_decimal(&mut s, v);
        assert_eq!(s, format!("x{v}"));
    }
}

#[test]
fn parsing_matches_std() {
    for text in ["", "+", "-", "-0", "+0", "007", "1 2", " 1", "18446744073709551615",
        "18446744073709551616", "9a", "٣"] {
        assert_eq!(parse_u64(text), text.parse::<u64>().ok(), "{text:?}");
    }
}

#[test]
fn trimming_matches_std() {
    for text in ["", "  ", "\u{3000}a b\u{85}", "\t\nx\r\n", "no-space", "\u{a0}"] {
        assert_eq!(trimmed(text), text.trim(), "{text:?}");
        assert_eq!(is_blank(text), text.trim().is_empty(), "{text:?}");
    }
}

#[test]
fn text_helpers() {
    assert!(text_eq("abc", "abc"));
    assert!(!text_eq("abc", "abd"));
    assert!(!text_eq("ab", "abc"));
    assert_eq!(chars_of("héllo"), vec!['h', 'é', 'l', 'l', 'o']);
    assert_eq!(owned("x y"), "x y");
    for (a, b) in [("a", "b"), ("a", "a"), ("ab", "a"), ("", "a"), ("Z", "a"), ("é", "z")] {
        assert_eq!(text_le(a, b), a <= b, "{a:?} {b:?}");
    }
}

