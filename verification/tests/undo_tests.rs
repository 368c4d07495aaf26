use bmp_editor::undo::{Diff, UndoHistory, UNDO_CAPACITY};

fn marker_diff(k: u32) -> Diff {
    // The sizes only serve to tell the diffs apart.
    Diff { size1: (k, k), size2: (k, k + 1), entries: Vec::new() }
}

#[test]
fn capacity_is_ten() {
    assert_eq!(UNDO_CAPACITY, 10);
}

#[test]
fn eleven_pushes_keep_the_last_ten_in_order() {
    let mut h = UndoHistory::new();
    for k in 1..=11u32 {
        h.push(marker_diff(k));
    }
    assert_eq!(h.len(), 10);
    // The first diff was evicted; the rest stand in their original order.
    for i in 0..10usize {
        assert_eq!(h.diffs[i].size1, (i as u32 + 2, i as u32 + 2));
    }
}

#[test]
fn pushes_below_capacity_evict_nothing() {
    let mut h = UndoHistory::new();
    for k in 1..=10u32 {
        h.push(marker_diff(k));
    }
    assert_eq!(h.len(), 10);
    for i in 0..10usize {
        assert_eq!(h.diffs[i].size1, (i as u32 + 1, i as u32 + 1));
    }
}

#[test]
fn pop_takes_the_most_recent_first() {
    let mut h = UndoHistory::new();
    h.push(marker_diff(1));
    h.push(marker_diff(2));
    h.push(marker_diff(3));
    assert_eq!(h.pop().unwrap().size1, (3, 3));
    assert_eq!(h.pop().unwrap().size1, (2, 2));
    assert_eq!(h.pop().unwrap().size1, (1, 1));
    assert_eq!(h.len(), 0);
}

#[test]
fn pop_on_empty_is_a_no_op() {
    let mut h = UndoHistory::new();
    assert!(h.pop().is_none());
    assert_eq!(h.len(), 0);
}

#[test]
fn eviction_and_undo_use_opposite_ends() {
    let mut h = UndoHistory::new();
    for k in 1..=11u32 {
        h.push(marker_diff(k));
    }
    // Undo pops the newest (11); the eviction had removed the oldest (1).
    assert_eq!(h.pop().unwrap().size1, (11, 11));
    assert_eq!(h.diffs[0].size1, (2, 2));
}

#[test]
fn same_size_compares_the_recorded_sizes() {
    let d = Diff { size1: (2, 2), size2: (2, 2), entries: Vec::new() };
    assert!(d.same_size());
    let d = Diff { size1: (2, 2), size2: (2, 3), entries: Vec::new() };
    assert!(!d.same_size());
}
