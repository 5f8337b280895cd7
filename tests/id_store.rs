use shatter::id::IdMap;

#[test]
fn next_id_counts_up_from_zero_and_is_uncounted() {
    let mut store: IdMap<&str> = IdMap::new();
    let a = store.next_id();
    let b = store.next_id();
    assert_eq!(a.value(), 0);
    assert_eq!(b.value(), 1);
    assert!(!a.is_counted());
    assert!(!store.contains(&a));
}

#[test]
fn insert_hands_back_a_counted_handle() {
    let mut store: IdMap<&str> = IdMap::new();
    let fresh = store.next_id();
    let id = store.insert(fresh, "buffer");
    assert!(id.is_counted());
    assert_eq!(id.ref_count(&store), 1);
    assert_eq!(store.get(&id), Some(&"buffer"));
}

#[test]
fn clone_id_and_release_move_the_count() {
    let mut store: IdMap<u32> = IdMap::new();
    let fresh = store.next_id();
    let id = store.insert(fresh, 7);
    let second = store.clone_id(&id);
    assert_eq!(id.ref_count(&store), 2);
    store.release(second);
    assert_eq!(id.ref_count(&store), 1);
    let untracked = id.clone_untracked();
    store.release(untracked);
    assert_eq!(id.ref_count(&store), 1);
}

#[test]
fn reclaimed_after_last_release_and_clean() {
    let mut store: IdMap<u32> = IdMap::new();
    let fresh = store.next_id();
    let id = store.insert(fresh, 7);
    let probe = id.clone_untracked();
    store.clean();
    assert_eq!(store.get(&probe), Some(&7));
    store.release(id);
    assert_eq!(store.get(&probe), Some(&7));
    store.clean();
    assert_eq!(store.get(&probe), None);
    assert_eq!(probe.ref_count(&store), 0);
}

#[test]
fn clean_keeps_live_objects() {
    let mut store: IdMap<u32> = IdMap::new();
    let f1 = store.next_id();
    let live = store.insert(f1, 1);
    let f2 = store.next_id();
    let dead = store.insert(f2, 2);
    let dead_probe = dead.clone_untracked();
    store.release(dead);
    store.clean();
    assert_eq!(store.get(&live), Some(&1));
    assert_eq!(store.get(&dead_probe), None);
}

#[test]
fn equality_is_by_value_alone() {
    let mut store: IdMap<u32> = IdMap::new();
    let fresh = store.next_id();
    let id = store.insert(fresh, 3);
    let other = id.clone_untracked();
    assert!(id == other);
    let next = store.next_id();
    assert!(id != next);
}

#[test]
fn identities_are_ordered_by_value() {
    let mut store: IdMap<u32> = IdMap::new();
    let a = store.next_id();
    let b = store.next_id();
    assert!(a < b);
    assert_eq!(a.partial_cmp(&a.clone_untracked()), Some(std::cmp::Ordering::Equal));
}

#[test]
fn limits_can_be_tested() {
    let mut store: IdMap<u32> = IdMap::new();
    assert_eq!(store.allocated(), 0);
    let fresh = store.next_id();
    assert_eq!(store.allocated(), 1);
    let _id = store.insert(fresh, 1);
    assert!(store.counts_below_limit());
}
