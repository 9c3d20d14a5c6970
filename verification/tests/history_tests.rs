use i3_companion::history::History;
use i3_companion::history::WSDirection;

fn filled(entries: Vec<i32>, cursor: usize) -> History {
    History { hist: entries, hist_ptr: cursor }
}

#[test]
fn push_records_newest_first() {
    let mut h = History::with_capacity(20);
    h.push(1, 20);
    h.push(2, 20);
    h.push(3, 20);
    assert_eq!(h.hist, vec![3, 2, 1]);
    assert_eq!(h.hist_ptr, 0);
}

#[test]
fn push_skips_repeat_of_current_entry() {
    let mut h = History::with_capacity(20);
    h.push(1, 20);
    h.push(2, 20);
    h.push(2, 20);
    assert_eq!(h.hist, vec![2, 1]);
}

#[test]
fn push_never_creates_adjacent_duplicates() {
    let mut h = History::with_capacity(20);
    for ws in [1, 2, 2, 3, 3, 3, 1, 1, 4] {
        h.push(ws, 20);
        for i in 1..h.hist.len() {
            assert_ne!(h.hist[i - 1], h.hist[i]);
        }
        assert!(h.hist.len() <= 20);
    }
}

#[test]
fn oscillation_stabilizes_at_two_entries() {
    let mut h = History::with_capacity(20);
    for _ in 0..10 {
        h.push(7, 20);
        h.push(9, 20);
    }
    assert_eq!(h.hist, vec![9, 7]);
    assert_eq!(h.hist.len(), 2);
}

#[test]
fn capacity_evicts_oldest() {
    let mut h = History::with_capacity(20);
    for ws in 1..=25 {
        h.push(ws, 20);
    }
    assert_eq!(h.hist.len(), 20);
    assert_eq!(h.hist[0], 25);
    assert_eq!(h.hist[19], 6);
}

#[test]
fn capacity_one_keeps_only_newest() {
    let mut h = History::with_capacity(1);
    h.push(4, 1);
    h.push(5, 1);
    assert_eq!(h.hist, vec![5]);
}

#[test]
fn reset_ptr_reverses_cycled_prefix() {
    let mut h = filled(vec![3, 2, 1], 2);
    h.reset_ptr();
    assert_eq!(h.hist, vec![1, 2, 3]);
    assert_eq!(h.hist_ptr, 0);
}

#[test]
fn reset_ptr_drops_stale_head_duplicate() {
    // the entry just beyond the cursor equals the head: the head is a
    // stale duplicate left by navigating back, and is dropped first
    let mut h = filled(vec![5, 4, 5, 9], 1);
    h.reset_ptr();
    assert_eq!(h.hist, vec![5, 4, 9]);
    assert_eq!(h.hist_ptr, 0);
}

#[test]
fn reset_ptr_noop_at_head() {
    let mut h = filled(vec![3, 2, 1], 0);
    h.reset_ptr();
    assert_eq!(h.hist, vec![3, 2, 1]);
    assert_eq!(h.hist_ptr, 0);
}

#[test]
fn push_after_navigation_resets_first() {
    // cursor sits at 1; pushing a fresh workspace first reverses the
    // cycled-through prefix, then records the new entry in front
    let mut h = filled(vec![3, 2, 1], 1);
    h.push(9, 20);
    assert_eq!(h.hist, vec![9, 2, 3, 1]);
    assert_eq!(h.hist_ptr, 0);
}

#[test]
fn swap_at_exchanges_entries() {
    let mut h = filled(vec![3, 2, 1], 0);
    h.swap_at(0, 2);
    assert_eq!(h.hist, vec![1, 2, 3]);
    assert_eq!(h.hist_ptr, 0);
}

#[test]
fn remove_and_point_adjusts_cursor() {
    let mut h = filled(vec![5, 4, 3], 0);
    h.remove_and_point(0, 1);
    assert_eq!(h.hist, vec![4, 3]);
    assert_eq!(h.hist_ptr, 0);
}

#[test]
fn direction_round_trip() {
    assert_eq!(WSDirection::PREV.to_i32(), 1);
    assert_eq!(WSDirection::NEXT.to_i32(), -1);
    assert_eq!(WSDirection::from_i32(0), WSDirection::PREV);
    assert_eq!(WSDirection::from_i32(5), WSDirection::PREV);
    assert_eq!(WSDirection::from_i32(-1), WSDirection::NEXT);
}
