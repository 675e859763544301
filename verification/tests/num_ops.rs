use mtui::num_ops::wrap_index;

#[test]
fn wrapping_moves_in_both_directions_and_round_trips_at_the_ends() {
    assert_eq!(wrap_index(0, 3, true), 1);
    assert_eq!(wrap_index(2, 3, true), 0);
    assert_eq!(wrap_index(0, 3, false), 2);
    assert_eq!(wrap_index(1, 3, false), 0);
}

#[test]
fn empty_lists_and_stale_indices_are_safe() {
    assert_eq!(wrap_index(5, 0, true), 0);
    assert_eq!(wrap_index(5, 0, false), 0);
    assert_eq!(wrap_index(9, 3, true), 0, "a stale index clamps to the end first");
    assert_eq!(wrap_index(9, 3, false), 1);
    assert_eq!(wrap_index(u16::MAX, u16::MAX, true), 0);
    assert_eq!(wrap_index(0, u16::MAX, false), u16::MAX - 1);
}

#[test]
fn cycling_forward_then_back_returns() {
    let items = [3u8, 7, 9];
    for c in items {
        for f in [true, false] {
            let next = mtui::num_ops::cycle(&items, c, f);
            assert!(items.contains(&next));
            assert_eq!(mtui::num_ops::cycle(&items, next, !f), c);
        }
    }
    assert_eq!(mtui::num_ops::cycle(&items, 5, true), 7);
    assert_eq!(mtui::num_ops::cycle(&[] as &[u8], 5, true), 5);
}
