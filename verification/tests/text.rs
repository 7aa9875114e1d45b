use std::cmp::Ordering;

use edged_core::desktop::window_order;
use edged_core::text::{
    compare_text, decimal, parse_decimal, signed_decimal, trim, trim_trailing_slashes, Order,
};

#[test]
fn numbers_are_written_and_read_in_decimal() {
    assert_eq!(decimal(0), "0");
    assert_eq!(decimal(18_446_744_073_709_551_615), "18446744073709551615");
    assert_eq!(signed_decimal(i32::MIN), "-2147483648");
    assert_eq!(parse_decimal("+42"), Some(42));
    assert_eq!(parse_decimal("18446744073709551616"), None);
    assert_eq!(parse_decimal("-1"), None);
    assert_eq!(parse_decimal(""), None);
}

#[test]
fn text_is_compared_character_by_character() {
    assert_eq!(compare_text("abc", "abd"), Order::Less);
    assert_eq!(compare_text("ab", "abc"), Order::Less);
    assert_eq!(compare_text("b", "B"), Order::Greater);
    assert_eq!(compare_text("same", "same"), Order::Equal);
    assert_eq!(trim_trailing_slashes("/a/b///"), "/a/b");
}

#[test]
fn case_is_set_aside_by_lowering_it() {
    assert_eq!(
        window_order(("ÉCRAN", "x", 1), ("écran", "x", 1)),
        Ordering::Equal
    );
}

#[test]
fn unicode_white_space_is_trimmed_from_both_ends() {
    assert_eq!(trim("\u{3000} a b\u{a0}\n"), "a b");
    assert_eq!(trim(" \t "), "");
    assert_eq!(trim("\u{200b}x"), "\u{200b}x");
}
