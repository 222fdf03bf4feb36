use passgen::list::{Items, Key};

fn abc() -> Items<&'static str> {
    Items::new(vec!["a", "b", "c"])
}

#[test]
fn cursor_walk_wraps_both_ways() {
    let mut list = abc();
    assert_eq!(list.selected, Some(0));
    list.next();
    assert_eq!(list.selected, Some(1));
    list.next();
    assert_eq!(list.selected, Some(2));
    list.next();
    assert_eq!(list.selected, Some(0));
    list.previous();
    assert_eq!(list.selected, Some(2));
}

#[test]
fn new_empty_has_no_cursor() {
    let mut list: Items<u8> = Items::new(vec![]);
    assert_eq!(list.selected, None);
    assert_eq!(list.get_selected(), None);
    list.next();
    list.previous();
    assert_eq!(list.selected, None);
}

#[test]
fn next_len_times_returns_to_start() {
    for start in 0..5usize {
        let mut list = Items::new(vec![10, 20, 30, 40, 50]);
        list.select(start);
        for _ in 0..5 {
            list.next();
        }
        assert_eq!(list.selected, Some(start));
    }
}

#[test]
fn next_then_previous_is_identity() {
    for start in 0..3usize {
        let mut list = abc();
        list.select(start);
        list.next();
        list.previous();
        assert_eq!(list.selected, Some(start));
        list.previous();
        list.next();
        assert_eq!(list.selected, Some(start));
    }
}

#[test]
fn previous_from_first_goes_to_last() {
    let mut list = Items::new(vec![1, 2, 3, 4]);
    list.previous();
    assert_eq!(list.selected, Some(3));
    assert_eq!(list.get_selected(), Some(&4));
}

#[test]
fn single_item_stays_put() {
    let mut list = Items::new(vec!['x']);
    list.next();
    assert_eq!(list.selected, Some(0));
    list.previous();
    assert_eq!(list.selected, Some(0));
}

#[test]
fn select_out_of_range_gives_no_item() {
    let mut list = abc();
    list.select(7);
    assert_eq!(list.selected, Some(7));
    assert_eq!(list.get_selected(), None);
    list.next();
    assert_eq!(list.selected, Some(2));
    list.select(7);
    list.previous();
    assert_eq!(list.selected, Some(0));
}

#[test]
fn select_and_get_selected() {
    let mut list = abc();
    list.select(1);
    assert_eq!(list.get_selected(), Some(&"b"));
}

#[test]
fn cursor_at_usize_max_moves_modulo() {
    let mut list = abc();
    list.select(usize::MAX);
    list.next();
    // usize::MAX + 1 = 2^64, and 2^64 mod 3 = 1
    assert_eq!(list.selected, Some(1));
}

#[test]
fn navigation_keys() {
    let mut list = abc();
    list.handle_key_event(Key::Down);
    assert_eq!(list.selected, Some(1));
    list.handle_key_event(Key::Char('j'));
    assert_eq!(list.selected, Some(2));
    list.handle_key_event(Key::Up);
    assert_eq!(list.selected, Some(1));
    list.handle_key_event(Key::Char('k'));
    assert_eq!(list.selected, Some(0));
    list.handle_key_event(Key::Char('q'));
    list.handle_key_event(Key::Other);
    assert_eq!(list.selected, Some(0));
    assert_eq!(list.items, vec!["a", "b", "c"]);
}
