use crabwalk::names::NameSet;
use crabwalk::text::{contains, ends_with, join, replace_all, text_eq};

#[test]
fn texts_are_compared_joined_and_searched() {
    assert!(text_eq("abc", "abc"));
    assert!(!text_eq("abc", "abd"));
    assert!(text_eq("", ""));
    assert_eq!(join("ab", "cd"), "abcd");
    assert!(ends_with("model.sql", ".sql"));
    assert!(!ends_with("model.sqlx", ".sql"));
    assert!(!ends_with("sql", ".sql"));
    assert!(ends_with("anything", ""));
    assert!(ends_with("h\u{e9}llo.sql", ".sql"));
    assert!(contains("abcabd", "abd"));
    assert!(contains("abc", ""));
    assert!(contains("", ""));
    assert!(contains("abc", "abc"));
    assert!(!contains("abc", "abcd"));
    assert!(!contains("abcab", "abd"));
    assert!(contains("\u{e9}t\u{e9}", "t\u{e9}"));
}

#[test]
fn every_occurrence_is_replaced_from_the_left() {
    assert_eq!(replace_all("a-b-c", "-", "+"), "a+b+c");
    assert_eq!(replace_all("aaa", "aa", "b"), "ba");
    assert_eq!(replace_all("aaaa", "aa", "a"), "aa");
    assert_eq!(replace_all("abc", "", "x"), "abc");
    assert_eq!(replace_all("abc", "abcd", "x"), "abc");
    assert_eq!(replace_all("abc", "abc", ""), "");
    assert_eq!(replace_all("", "a", "b"), "");
    assert_eq!(replace_all("x{t}y{t}", "{t}", "{t}{t}"), "x{t}{t}y{t}{t}");
    assert_eq!(replace_all("\u{e9}t\u{e9}", "\u{e9}", "e"), "ete");
    for (text, pattern, with) in [("banana", "ana", "o"), ("--a--", "-", ""), ("abcabc", "bc", "cb")] {
        assert_eq!(replace_all(text, pattern, with), text.replace(pattern, with));
    }
}

#[test]
fn a_name_set_holds_each_name_once() {
    let mut names = NameSet::new();
    assert!(names.is_empty());
    assert!(names.insert("b".to_string()));
    assert!(names.insert("a".to_string()));
    assert!(!names.insert("b".to_string()));
    assert_eq!(names.len(), 2);
    assert!(names.contains("a"));
    assert!(!names.contains("c"));
    assert_eq!(names.to_vec(), vec!["b".to_string(), "a".to_string()]);
    assert_eq!(names.name_at(1), "a");
    let mut more = NameSet::new();
    more.insert("c".to_string());
    more.insert("a".to_string());
    names.extend(&more);
    assert_eq!(names.to_vec(), vec!["b".to_string(), "a".to_string(), "c".to_string()]);
    assert!(names.remove("a"));
    assert!(!names.remove("a"));
    assert_eq!(names.to_vec(), vec!["b".to_string(), "c".to_string()]);
    assert!(!names.is_empty());
}
