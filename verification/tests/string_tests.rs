use rdfwalk::util::string::{
    concat_strs, is_control, is_whitespace, join_strings, pad_right, push_decimal, sanitize, str_eq,
    strip_prefix, trim, truncate,
};

#[test]
fn truncate_keeps_short_text() {
    assert_eq!(truncate("abc".to_string(), 3), "abc");
    assert_eq!(truncate("abc".to_string(), 10), "abc");
    assert_eq!(truncate(String::new(), 0), "");
}

#[test]
fn truncate_cuts_with_ellipsis() {
    assert_eq!(truncate("abcdef".to_string(), 4), "abc\u{2026}");
    assert_eq!(truncate("abcdef".to_string(), 1), "\u{2026}");
}

#[test]
fn truncate_to_zero_leaves_the_ellipsis() {
    assert_eq!(truncate("abc".to_string(), 0), "\u{2026}");
}

#[test]
fn truncate_counts_characters_not_bytes() {
    assert_eq!(truncate("\u{e9}t\u{e9}".to_string(), 3), "\u{e9}t\u{e9}");
    assert_eq!(truncate("\u{e9}t\u{e9}s".to_string(), 3), "\u{e9}t\u{2026}");
}

#[test]
fn truncate_twice_is_truncate_once() {
    for s in ["", "a", "abcdef", "\u{2026}\u{2026}x"] {
        for m in 0..8 {
            let once = truncate(s.to_string(), m);
            assert_eq!(truncate(once.clone(), m), once);
            assert!(once.chars().count() <= m.max(1));
        }
    }
}

#[test]
fn sanitize_collapses_whitespace_and_controls() {
    assert_eq!(sanitize("  a \n b\t\tc  "), "a b c");
    assert_eq!(sanitize("line1\r\nline2"), "line1 line2");
    assert_eq!(sanitize(""), "");
    assert_eq!(sanitize(" \n\t "), "");
    assert_eq!(sanitize("x\u{0}y"), "x y");
    assert_eq!(sanitize("no\u{a0}break"), "no break");
}

#[test]
fn sanitize_is_idempotent() {
    for s in ["  a \n b ", "x\u{85}y", "\u{3000}z", "plain", "a\u{7f}b"] {
        let once = sanitize(s);
        assert_eq!(sanitize(&once), once);
        assert!(!once.chars().any(|c| c.is_control()));
        assert!(!once.starts_with(' ') && !once.ends_with(' '));
        assert!(!once.contains("  "));
    }
}

#[test]
fn char_classes_match_std() {
    for u in 0u32..=0x10FFFF {
        if let Some(c) = char::from_u32(u) {
            assert_eq!(is_control(c), c.is_control(), "is_control {:x}", u);
            assert_eq!(is_whitespace(c), c.is_whitespace(), "is_whitespace {:x}", u);
        }
    }
}

#[test]
fn strip_prefix_and_equality() {
    assert_eq!(strip_prefix("http://x/y", "http://x/"), Some("y".to_string()));
    assert_eq!(strip_prefix("http://x/", "http://x/"), Some(String::new()));
    assert_eq!(strip_prefix("http://z", "http://x/"), None);
    assert!(str_eq("abc", "abc"));
    assert!(!str_eq("abc", "abd"));
    assert_eq!(concat_strs("ab", "cd"), "abcd");
}

#[test]
fn padding_and_joining() {
    assert_eq!(pad_right("ab", 5), "ab   ");
    assert_eq!(pad_right("abcdef", 3), "abcdef");
    assert_eq!(pad_right("\u{e9}", 2), "\u{e9} ");
    assert_eq!(join_strings(&vec!["a".to_string(), "b".to_string()], "  "), "a  b");
    assert_eq!(join_strings(&vec![], ", "), "");
}

#[test]
fn decimal_numbers() {
    for n in [0usize, 7, 10, 1000, 123456789, usize::MAX] {
        let mut s = String::from("x");
        push_decimal(&mut s, n);
        assert_eq!(s, format!("x{}", n));
    }
}

#[test]
fn trimming_matches_std() {
    for t in ["", "  ", " a b ", "\u{3000}x\n", "\u{85}y\u{a0}z\t", "no-space"] {
        assert_eq!(trim(t), t.trim());
    }
}
