use disco_bot::config::SavedAccount;
use disco_bot::order::{insert_by_name, precedes};
use disco_bot::text::{bracketed, join_texts, push_decimal, same_text};

fn decimal(n: u64) -> String {
    let mut out = String::new();
    push_decimal(&mut out, n);
    out
}

#[test]
fn decimal_numerals() {
    assert_eq!(decimal(0), "0");
    assert_eq!(decimal(7), "7");
    assert_eq!(decimal(10), "10");
    assert_eq!(decimal(1234567890), "1234567890");
    assert_eq!(decimal(u64::MAX), "18446744073709551615");
    for n in [9u64, 11, 99, 100, 101, 999, 1000, 65535, 4294967296] {
        assert_eq!(decimal(n), format!("{}", n));
    }
}

#[test]
fn push_decimal_appends_to_what_is_there() {
    let mut out = String::from("guild ");
    push_decimal(&mut out, 42);
    assert_eq!(out, "guild 42");
}

#[test]
fn join_texts_joins_two_texts() {
    assert_eq!(join_texts("Queued: ", "Song"), "Queued: Song");
    assert_eq!(join_texts("", ""), "");
    assert_eq!(join_texts("é", "日本"), "é日本");
}

#[test]
fn bracketed_puts_label_in_square_brackets() {
    assert_eq!(bracketed("12:00:00", "hello"), "[12:00:00] hello");
    assert_eq!(bracketed("", ""), "[] ");
}

#[test]
fn same_text_compares_characters() {
    assert!(same_text("", ""));
    assert!(same_text("abc", "abc"));
    assert!(same_text("日本", "日本"));
    assert!(!same_text("abc", "abd"));
    assert!(!same_text("abc", "ab"));
    assert!(!same_text("", "a"));
    assert!(!same_text("e", "é"));
}

#[test]
fn precedes_is_the_byte_order_of_texts() {
    assert!(precedes("", ""));
    assert!(precedes("", "a"));
    assert!(!precedes("a", ""));
    assert!(precedes("a", "a"));
    assert!(precedes("a", "ab"));
    assert!(!precedes("ab", "a"));
    assert!(precedes("B", "a"));
    assert!(!precedes("a", "B"));
    assert!(precedes("abc", "abd"));
    assert!(precedes("z", "é"));
    let samples = ["", "a", "A", "ab", "b", "é", "日本", "~", "10", "9"];
    for x in samples {
        for y in samples {
            assert_eq!(precedes(x, y), x <= y);
        }
    }
}

#[test]
fn insert_by_name_keeps_the_order_and_goes_behind_equal_names() {
    let saved = |uuid: &str, alias: &str| SavedAccount {
        uuid: uuid.to_string(),
        alias: alias.to_string(),
        token: String::new(),
        auto_start: true,
    };
    let mut list: Vec<SavedAccount> = Vec::new();
    assert_eq!(insert_by_name(&mut list, saved("1", "m")), 0);
    assert_eq!(insert_by_name(&mut list, saved("2", "a")), 0);
    assert_eq!(insert_by_name(&mut list, saved("3", "z")), 2);
    assert_eq!(insert_by_name(&mut list, saved("4", "m")), 2);
    assert_eq!(insert_by_name(&mut list, saved("5", "")), 0);
    let uuids: Vec<&str> = list.iter().map(|a| a.uuid.as_str()).collect();
    assert_eq!(uuids, vec!["5", "2", "1", "4", "3"]);
}
