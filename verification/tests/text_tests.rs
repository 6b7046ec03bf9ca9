use timesplit::text::{asterisks, decimal_string, header_value_text, same_text, trim_whitespace};

#[test]
fn trim_both_ends() {
    assert_eq!(trim_whitespace("  a b \t\n"), "a b");
    assert_eq!(trim_whitespace("\u{2003}x\u{205f}"), "x");
    assert_eq!(trim_whitespace(" \u{0085} "), "");
    assert_eq!(trim_whitespace("plain"), "plain");
}

#[test]
fn decimal_notation() {
    assert_eq!(decimal_string(0), "0");
    assert_eq!(decimal_string(7), "7");
    assert_eq!(decimal_string(10), "10");
    assert_eq!(decimal_string(1234567), "1234567");
}

#[test]
fn text_comparisons() {
    assert!(same_text("abc", "abc"));
    assert!(!same_text("abc", "abd"));
}

#[test]
fn header_values_as_text() {
    assert_eq!(header_value_text(b"wakatime/v1.0 (linux)"), Some("wakatime/v1.0 (linux)".to_string()));
    assert_eq!(header_value_text(b"a\tb"), Some("a\tb".to_string()));
    assert_eq!(header_value_text(b"caf\xc3\xa9"), None);
    assert_eq!(header_value_text(b"a\x7f"), None);
    assert_eq!(header_value_text(b""), Some(String::new()));
}

#[test]
fn asterisk_strings() {
    assert_eq!(asterisks(0), "");
    assert_eq!(asterisks(4), "****");
}
