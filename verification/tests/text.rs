use watchdog::text::{decimal_text, optional_to_text, same_text};

#[test]
fn numerals_have_no_leading_zeros() {
    assert_eq!(decimal_text(0), "0");
    assert_eq!(decimal_text(7), "7");
    assert_eq!(decimal_text(10), "10");
    assert_eq!(decimal_text(1212), "1212");
    assert_eq!(decimal_text(65535), "65535");
    assert_eq!(decimal_text(4294967295), "4294967295");
}

#[test]
fn optional_integers_are_printed_for_debugging() {
    for value in [None, Some(0), Some(1), Some(-1), Some(134), Some(i32::MAX), Some(i32::MIN)] {
        assert_eq!(optional_to_text(value), format!("{:?}", value));
    }
}

#[test]
fn texts_are_compared_by_character() {
    assert!(same_text("", ""));
    assert!(same_text("fähre", "fähre"));
    assert!(!same_text("a", "A"));
    assert!(!same_text("ab", "a"));
}
