//! Small collections.
use xbar::table::{KeySet, Table};
use xbar::text::{blank, parse_number, split_word, trim, NumberError};

#[test]
fn tables_are_compared_by_what_they_hold() {
    let mut a = Table::new();
    let mut b = Table::new();
    a.insert("x".to_owned(), 1_u64);
    assert_ne!(a, b);
    b.insert("y".to_owned(), 2_u64);
    assert_eq!(a.insert("y".to_owned(), 3), None);
    assert_eq!(b.insert("x".to_owned(), 1), None);
    assert_ne!(a, b);
    assert_eq!(a.insert("y".to_owned(), 2), Some(3));
    assert_eq!(a, b);
    assert_eq!(a.get(&"y".to_owned()), Some(&2));
    b.remove(&"y".to_owned());
    assert_ne!(a, b);
    assert_eq!(b.keys(), ["x"]);
}

#[test]
fn sets_are_compared_by_their_members() {
    let mut a = KeySet::new();
    let mut b = KeySet::new();
    assert!(a.is_empty());
    assert!(a.insert(1_u64) && a.insert(2) && !a.insert(1));
    assert!(b.insert(2_u64));
    assert_ne!(a, b);
    assert!(b.insert(1));
    assert_eq!(a, b);
    a.remove(&2);
    assert!(!a.contains(&2) && a.contains(&1));
    assert_ne!(a, b);
}

#[test]
fn text_is_taken_apart_at_white_space() {
    assert_eq!(trim(" \u{a0}a b\t\n"), "a b");
    assert_eq!(trim("\u{2003}"), "");
    assert_eq!(split_word("  one two"), ("one".to_owned(), " two".to_owned()));
    assert_eq!(split_word(""), (String::new(), String::new()));
    assert!(blank("\r\n\u{3000}") && blank("") && !blank(" x "));
}

#[test]
fn numbers_are_read_up_to_a_limit() {
    assert_eq!(parse_number("255", false, 255), Ok(255));
    assert_eq!(parse_number("256", false, 255), Err(NumberError::TooLarge));
    assert_eq!(parse_number("fF", true, u32::MAX), Ok(255));
    assert_eq!(parse_number("fF", false, u32::MAX), Err(NumberError::InvalidDigit));
    assert_eq!(parse_number("", false, 255), Err(NumberError::Empty));
    assert_eq!(parse_number("+7", false, 255), Ok(7));
    assert_eq!(parse_number("ffffffff", true, u32::MAX), Ok(u32::MAX));
    assert_eq!(parse_number("100000000", true, u32::MAX), Err(NumberError::TooLarge));
}
