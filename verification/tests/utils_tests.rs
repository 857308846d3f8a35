use rung::files::{compare_lines, compare_strings, get_lines, get_top_lines};
use rung::utils::compare;
use std::cmp::Ordering;

#[test]
fn compare_works_as_expected() {
    assert_eq!(Ordering::Equal, compare(&[1, 2, 3], &[1, 2, 3]));
    assert_eq!(Ordering::Less, compare(&[1, 0], &[1, 2]));
    assert_eq!(Ordering::Less, compare(&[], &[1, 2, 3]));
    assert_eq!(Ordering::Greater, compare(&[1, 2, 3], &[1, 2]));
    assert_eq!(Ordering::Greater, compare(&[1, 3], &[1, 2]));
}

#[test]
fn compare_orders_strict_prefixes() {
    assert_eq!(Ordering::Less, compare(&[1, 2], &[1, 2, 3]));
    assert_eq!(Ordering::Greater, compare(&[1, 2, 3], &[1, 2]));
}

#[test]
fn compare_strings_works_as_expected() {
    assert_eq!(Ordering::Equal, compare_strings("hello", "hello"));
    assert_eq!(Ordering::Less, compare_strings("abc", "abd"));
    assert_eq!(Ordering::Less, compare_strings("ab", "abc"));
    assert_eq!(Ordering::Greater, compare_strings("abc", "ab"));
    assert_eq!(Ordering::Equal, compare_strings("", ""));
    assert_eq!(Ordering::Less, compare_strings("", "a"));
}

#[test]
fn compare_lines_works_as_expected() {
    let a = vec!["hello".to_string(), "world".to_string()];
    let b = vec!["hello".to_string(), "world".to_string()];
    let prefix = vec!["hello".to_string()];
    assert_eq!(Ordering::Equal, compare_lines(&a, &b));
    assert_eq!(Ordering::Less, compare_lines(&prefix, &a));
    assert_eq!(Ordering::Greater, compare_lines(&a, &prefix));
}

#[test]
fn should_get_top_lines() {
    let lines = get_top_lines("one\ntwo\nthree\n", 2);

    assert_eq!(2, lines.len());
    assert_eq!("one", lines[0]);
    assert_eq!("two", lines[1]);
}

#[test]
fn should_not_fail_on_small_files() {
    let lines = get_top_lines("one\ntwo\nthree\n", 20);

    assert_eq!(3, lines.len());
    assert_eq!("one", lines[0]);
    assert_eq!("two", lines[1]);
    assert_eq!("three", lines[2]);
}

#[test]
fn get_lines_splits_content() {
    let lines = get_lines("test\ntemplate");

    assert_eq!(2, lines.len());
    assert_eq!("test", lines[0]);
    assert_eq!("template", lines[1]);
}

#[test]
fn get_lines_handles_carriage_returns_and_final_newline() {
    let lines = get_lines("one\r\ntwo\r\n");

    assert_eq!(2, lines.len());
    assert_eq!("one", lines[0]);
    assert_eq!("two", lines[1]);

    assert_eq!(0, get_lines("").len());
    assert_eq!(vec!["a".to_string()], get_lines("a\n"));
}
