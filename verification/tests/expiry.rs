use mixed_ds::ExpirationIndex;

#[test]
fn a_new_index_is_empty() {
    let mut index = ExpirationIndex::new();
    assert!(index.is_empty());
    assert_eq!(index.len(), 0);
    assert_eq!(index.peek_min(), None);
    assert_eq!(index.peek_max(), None);
    assert_eq!(index.pop_min(), None);
    assert_eq!(index.pop_max(), None);
}

#[test]
fn records_come_out_in_order_from_the_near_end() {
    let mut index = ExpirationIndex::new();
    for r in [(5u64, 2u64), (3, 9), (5, 1), (u64::MAX, 0), (0, 7), (3, 9)] {
        index.insert(r);
    }
    assert_eq!(index.len(), 6);
    assert!(!index.is_empty());
    assert_eq!(index.peek_min(), Some((0, 7)));
    assert_eq!(index.len(), 6);
    let mut out = Vec::new();
    while let Some(r) = index.pop_min() {
        out.push(r);
    }
    assert_eq!(out, vec![(0, 7), (3, 9), (3, 9), (5, 1), (5, 2), (u64::MAX, 0)]);
    assert!(index.is_empty());
}

#[test]
fn records_come_out_in_order_from_the_far_end() {
    let mut index = ExpirationIndex::new();
    for r in [(5u64, 2u64), (3, 9), (5, 1), (u64::MAX, 0), (0, 7)] {
        index.insert(r);
    }
    assert_eq!(index.peek_max(), Some((u64::MAX, 0)));
    assert_eq!(index.len(), 5);
    let mut out = Vec::new();
    while let Some(r) = index.pop_max() {
        out.push(r);
    }
    assert_eq!(out, vec![(u64::MAX, 0), (5, 2), (5, 1), (3, 9), (0, 7)]);
}

#[test]
fn both_ends_can_be_taken_in_turn() {
    let mut index = ExpirationIndex::new();
    for r in [(4u64, 0u64), (1, 1), (3, 2), (2, 3)] {
        index.insert(r);
    }
    assert_eq!(index.pop_min(), Some((1, 1)));
    assert_eq!(index.pop_max(), Some((4, 0)));
    assert_eq!(index.len(), 2);
    assert_eq!(index.peek_min(), Some((2, 3)));
    assert_eq!(index.peek_max(), Some((3, 2)));
    index.insert((0, 9));
    assert_eq!(index.pop_min(), Some((0, 9)));
    assert_eq!(index.pop_max(), Some((3, 2)));
    assert_eq!(index.pop_max(), Some((2, 3)));
    assert_eq!(index.pop_max(), None);
}

#[test]
fn clear_drops_every_record() {
    let mut index = ExpirationIndex::new();
    index.insert((1, 1));
    index.insert((2, 2));
    index.clear();
    assert!(index.is_empty());
    assert_eq!(index.len(), 0);
    assert_eq!(index.pop_min(), None);
    index.insert((7, 7));
    assert_eq!(index.peek_max(), Some((7, 7)));
}
