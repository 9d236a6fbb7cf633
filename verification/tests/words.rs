//! Ids and plain text.

use protector_view::text;
use protector_view::text_set::{distinct_texts, TextSet};
use protector_view::view_model::ids::{row_id, short_hash, signing_dom_id};

#[test]
fn ids_are_a_prefix_a_slug_and_a_hash() {
    let id = row_id("f", "Secret/app_db");
    assert!(id.starts_with("f-"), "{id}");
    assert!(id.chars().all(|c| c.is_ascii_alphanumeric() || c == '-'), "{id}");
    assert!(id.ends_with(&short_hash("Secret/app_db")), "{id}");
    assert_eq!(short_hash(""), "84222325");
    assert_eq!(short_hash("a"), "8601ec8c");
    assert_ne!(row_id("f", "a/b"), row_id("f", "a-b"));
    assert_ne!(row_id("si", "a"), row_id("sr", "a"));
}

#[test]
fn texts_are_searched() {
    assert!(text::has("a -[b]-> c", "-["));
    assert!(!text::has("abc", "x"));
    assert!(text::has("abc", ""));
    assert!(text::leads("abc", "ab") && !text::leads("abc", "bc"));
    assert!(text::same("\u{e9}", "\u{e9}") && !text::same("a", "b"));
    assert!(text::at_most("a", "b") && text::at_most("a", "a") && !text::at_most("b", "a"));
    assert!(text::at_most("a", "ab") && !text::at_most("ab", "a"));
}

#[test]
fn texts_are_taken_apart() {
    assert_eq!(text::cut("a=b=c", "="), Some(("a".to_string(), "b=c".to_string())));
    assert_eq!(text::rcut("a=b=c", "="), Some(("a=b".to_string(), "c".to_string())));
    assert_eq!(text::cut("abc", "="), None);
    assert_eq!(text::rcut("abc", "="), None);
    assert_eq!(text::parts("a/b//c", "/"), ["a", "b", "", "c"]);
    assert_eq!(text::parts("", "/"), [""]);
    assert_eq!(text::part("a/b/c", "/", 1), Some("b"));
    assert_eq!(text::part("a/b/c", "/", 3), None);
    assert_eq!(text::head("a/b/c", "/"), "a");
    assert_eq!(text::tail("a/b/c", "/"), "b/c");
    assert_eq!(text::without_prefix("can-do/get", "can-do/").as_deref(), Some("get"));
    assert_eq!(text::without_prefix("can-read", "can-do/"), None);
}

#[test]
fn texts_are_rewritten() {
    assert_eq!(text::trimmed("  a b\t\n"), "a b");
    assert_eq!(text::trimmed_start("  a "), "a ");
    assert_eq!(text::trimmed_end(" a  "), " a");
    assert_eq!(text::lowered("CVE-X"), "cve-x");
    assert_eq!(text::replaced("a-b-c", '-', ' '), "a b c");
    assert_eq!(text::joined(&vec!["a".to_string(), "b".to_string()], ", "), "a, b");
    assert_eq!(text::joined(&vec![], ", "), "");
    assert_eq!(text::number(0), "0");
    assert_eq!(text::number(u64::MAX), "18446744073709551615");
    assert_eq!(text::text_of(&text::chars_of("h\u{e9}llo"), 1, 3), "\u{e9}l");
}

#[test]
fn a_set_of_texts_is_in_order() {
    let mut s = TextSet::new();
    for t in ["b", "a", "b"] {
        s.insert(t.to_string());
    }
    assert_eq!(s.len(), 2);
    assert_eq!(s.difference(&TextSet::new()), ["a", "b"]);
    assert_eq!(
        distinct_texts(&vec!["b".to_string(), "a".to_string(), "b".to_string()]),
        ["b", "a"]
    );
}

#[test]
fn ids_of_signing_rows_are_in_lower_case() {
    for prefix in ["si", "sr", "se", "pc"] {
        let id = signing_dom_id(prefix, "GHCR.io/Acme/App");
        assert!(id.starts_with(&format!("{prefix}-ghcr-io-acme-app-")), "{id}");
        assert!(id.ends_with(&short_hash("GHCR.io/Acme/App")), "{id}");
        assert!(id.chars().all(|c| c.is_ascii_lowercase() || c.is_ascii_digit() || c == '-'));
    }
}
