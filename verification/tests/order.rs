use smech_farm::order::{at_most, order_by_number, order_by_text};

#[test]
fn rows_with_equal_keys_keep_their_order() {
    assert_eq!(order_by_text(&vec!["b", "a", "b", "a"]), vec![1usize, 3, 0, 2]);
    assert_eq!(order_by_number(&vec![2i64, 1, 2, 3], false), vec![1usize, 0, 2, 3]);
    assert_eq!(order_by_number(&vec![2i64, 1, 2, 3], true), vec![3usize, 0, 2, 1]);
    assert_eq!(order_by_text(&Vec::new()), Vec::<usize>::new());
}

#[test]
fn texts_are_ordered_by_code_points() {
    assert!(at_most("Z", "a"));
    assert!(at_most("a", "a"));
    assert!(at_most("", "a"));
    assert!(!at_most("ab", "a"));
    assert!(at_most("z", "é"));
    assert!(!at_most("\u{1f600}", "\u{ffff}"));
}
