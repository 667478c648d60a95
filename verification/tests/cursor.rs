use hermes::cursor::UpdateCursor;

#[test]
fn a_new_cursor_is_undefined() {
    let cursor = UpdateCursor::new();
    assert_eq!(cursor.current(), None);
}

#[test]
fn observing_nothing_changes_nothing() {
    let mut cursor = UpdateCursor::new();
    cursor.observe(&vec![]);
    assert_eq!(cursor.current(), None);
    cursor.observe(&vec![4]);
    cursor.observe(&vec![]);
    assert_eq!(cursor.current(), Some(5));
}

#[test]
fn observing_moves_past_the_highest() {
    let mut cursor = UpdateCursor::new();
    cursor.observe(&vec![5, 9, 7]);
    assert_eq!(cursor.current(), Some(10));
}

#[test]
fn observing_one_update() {
    let mut cursor = UpdateCursor::new();
    cursor.observe(&vec![0]);
    assert_eq!(cursor.current(), Some(1));
}

#[test]
fn observing_in_any_order_gives_the_same_offset() {
    let mut ascending = UpdateCursor::new();
    ascending.observe(&vec![1, 2, 3]);
    let mut descending = UpdateCursor::new();
    descending.observe(&vec![3, 2, 1]);
    assert_eq!(ascending.current(), Some(4));
    assert_eq!(descending.current(), Some(4));
}

#[test]
fn the_cursor_never_moves_back() {
    let mut cursor = UpdateCursor::new();
    cursor.observe(&vec![9]);
    cursor.observe(&vec![3, 4]);
    assert_eq!(cursor.current(), Some(10));
    cursor.observe(&vec![9]);
    assert_eq!(cursor.current(), Some(10));
    cursor.observe(&vec![10]);
    assert_eq!(cursor.current(), Some(11));
}

#[test]
fn advance_past_gives_the_new_offset() {
    let mut cursor = UpdateCursor::new();
    assert_eq!(cursor.advance_past(41), 42);
    assert_eq!(cursor.current(), Some(42));
    assert_eq!(cursor.advance_past(7), 42);
    assert_eq!(cursor.current(), Some(42));
    assert_eq!(cursor.advance_past(42), 43);
    assert_eq!(cursor.current(), Some(43));
}

#[test]
fn the_highest_identifier_does_not_overflow() {
    let mut cursor = UpdateCursor::new();
    cursor.observe(&vec![i32::MAX]);
    assert_eq!(cursor.current(), Some(2147483648));
}

#[test]
fn negative_identifiers_are_ordered_like_any_other() {
    let mut cursor = UpdateCursor::new();
    cursor.observe(&vec![-5, -9]);
    assert_eq!(cursor.current(), Some(-4));
    cursor.observe(&vec![i32::MIN]);
    assert_eq!(cursor.current(), Some(-4));
}
