use covers::text::{lower_str, split_str, str_eq, trim_str};

#[test]
fn str_eq_compares_contents() {
    assert!(str_eq("abc", "abc"));
    assert!(!str_eq("abc", "abd"));
    assert!(!str_eq("abc", "ab"));
    assert!(str_eq("", ""));
}

#[test]
fn trim_removes_outer_whitespace_only() {
    assert_eq!(trim_str("  a b \t"), "a b");
    assert_eq!(trim_str("a"), "a");
    assert_eq!(trim_str("   "), "");
    assert_eq!(trim_str(""), "");
}

#[test]
fn split_keeps_empty_pieces() {
    assert_eq!(split_str("a,b", ','), vec!["a", "b"]);
    assert_eq!(split_str("a,,b", ','), vec!["a", "", "b"]);
    assert_eq!(split_str(",a,", ','), vec!["", "a", ""]);
    assert_eq!(split_str("", ','), vec![""]);
}

#[test]
fn trim_removes_unicode_whitespace() {
    assert_eq!(trim_str("\u{00A0}\u{2003}a b\u{3000}\u{2028}"), "a b");
    assert_eq!(trim_str("\u{0085}\u{205F}\u{202F}"), "");
}

#[test]
fn lowering_changes_ascii_capitals_only() {
    assert_eq!(lower_str("SCOPE"), "scope");
    assert_eq!(lower_str("Impl_3"), "impl_3");
    assert_eq!(lower_str(""), "");
}
