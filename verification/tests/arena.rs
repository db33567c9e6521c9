use scene_rt::dense_storage::{DenseStorage, DenseStorageIndex};

#[test]
fn handle_round_trip() {
    let mut arena: DenseStorage<u32> = DenseStorage::new();
    let h = arena.push(42);
    assert_eq!(arena.get(h), Some(&42));
    let h2 = arena.push(7);
    assert_eq!(arena.get(h2), Some(&7));
    assert_eq!(arena.get(h), Some(&42));
}

#[test]
fn generation_safety() {
    let mut arena: DenseStorage<&str> = DenseStorage::new();
    let h = arena.push("first");
    assert_eq!(arena.remove(h), Some("first"));
    assert_eq!(arena.get(h), None);
    let h2 = arena.push("second");
    // the freed slot is reused, but under a new generation
    assert_eq!(h2.0, h.0);
    assert_ne!(h2, h);
    assert_eq!(arena.get(h), None);
    assert_eq!(arena.get(h2), Some(&"second"));
}

#[test]
fn slot_reuse() {
    let mut arena: DenseStorage<u32> = DenseStorage::new();
    let h0 = arena.push(10);
    let h1 = arena.push(20);
    assert_eq!(h0, DenseStorageIndex(0, 0));
    assert_eq!(h1, DenseStorageIndex(1, 0));
    arena.remove(h0);
    let h2 = arena.push(30);
    // the freed slot index is reused before any new slot is appended
    assert_eq!(h2.0, h0.0);
    assert_eq!(arena.storage.len(), 2);
    let h3 = arena.push(40);
    assert_eq!(h3, DenseStorageIndex(2, 0));
}

#[test]
fn remove_stale_handle_is_noop() {
    let mut arena: DenseStorage<u32> = DenseStorage::new();
    let h = arena.push(5);
    assert_eq!(arena.remove(h), Some(5));
    // the handle is stale now: a second removal finds nothing
    assert_eq!(arena.remove(h), None);
    let h2 = arena.push(6);
    // removing through the stale handle must not disturb the new value
    assert_eq!(arena.remove(h), None);
    assert_eq!(arena.get(h2), Some(&6));
}

#[test]
fn get_out_of_bounds() {
    let arena: DenseStorage<u32> = DenseStorage::new();
    assert_eq!(arena.get(DenseStorageIndex(3, 0)), None);
}

#[test]
fn iter_keeps_tombstones_aligned() {
    let mut arena: DenseStorage<u32> = DenseStorage::new();
    let _h0 = arena.push(1);
    let h1 = arena.push(2);
    let _h2 = arena.push(3);
    arena.remove(h1);
    let slots = arena.iter();
    assert_eq!(slots.len(), 3);
    assert_eq!(slots[0], (0, Some(1)));
    assert_eq!(slots[1], (1, None));
    assert_eq!(slots[2], (0, Some(3)));
}
