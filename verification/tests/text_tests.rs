use azkaban::text::{chars_of, decimal_string, fuzzy_match, lowercase, trim};

#[test]
fn fuzzy_match_finds_characters_in_order() {
    assert!(fuzzy_match("azkaban", "azb"));
    assert!(fuzzy_match("azkaban", ""));
    assert!(fuzzy_match("my-project", "mpj"));
    assert!(!fuzzy_match("azkaban", "bza"));
    assert!(!fuzzy_match("", "a"));
    assert!(!fuzzy_match("abc", "abcd"));
}

#[test]
fn fuzzy_match_needs_repeated_characters_repeated() {
    assert!(fuzzy_match("banana", "aaa"));
    assert!(!fuzzy_match("banana", "aaaa"));
}

#[test]
fn trim_removes_unicode_whitespace_at_both_ends() {
    assert_eq!(trim("  feature/x \t\n"), "feature/x");
    assert_eq!(trim("\u{3000}wide\u{a0}"), "wide");
    assert_eq!(trim("a b"), "a b");
    assert_eq!(trim(" \t "), "");
    assert_eq!(trim(""), "");
}

#[test]
fn lowercase_follows_unicode() {
    assert_eq!(lowercase("AzKaBaN"), "azkaban");
    assert_eq!(lowercase("ÉCOLE"), "école");
}

#[test]
fn chars_of_keeps_every_character() {
    assert_eq!(chars_of("añb"), vec!['a', 'ñ', 'b']);
}

#[test]
fn decimal_notation() {
    assert_eq!(decimal_string(0), "0");
    assert_eq!(decimal_string(7), "7");
    assert_eq!(decimal_string(120), "120");
    assert_eq!(decimal_string(18446744073709551615), "18446744073709551615");
}
