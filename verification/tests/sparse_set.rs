use wuestite_ecs::SparseSet;

#[test]
fn new_set_is_empty() {
    let set: SparseSet<u32> = SparseSet::new();
    assert_eq!(set.len(), 0);
    assert!(set.is_empty());
    assert_eq!(set.get(0), None);
}

#[test]
fn default_set_is_empty() {
    let set: SparseSet<String> = SparseSet::default();
    assert_eq!(set.len(), 0);
    assert!(set.is_empty());
}

#[test]
fn insert_then_get_returns_the_value() {
    let mut set = SparseSet::new();
    set.insert(3, "three");
    set.insert(0, "zero");
    assert_eq!(set.get(3), Some(&"three"));
    assert_eq!(set.get(0), Some(&"zero"));
    assert_eq!(set.len(), 2);
    assert!(!set.is_empty());
}

#[test]
fn round_trip_holds_for_many_keys() {
    let mut set = SparseSet::new();
    let keys: [u64; 6] = [17, 0, 4, 1000, 3, 999];
    for key in keys {
        set.insert(key, key * 10 + 1);
        assert_eq!(set.get(key), Some(&(key * 10 + 1)));
    }
    for key in keys {
        assert_eq!(set.get(key), Some(&(key * 10 + 1)));
    }
    assert_eq!(set.len(), 6);
}

#[test]
fn get_of_a_key_never_inserted_is_none() {
    let mut set = SparseSet::new();
    set.insert(5, 'a');
    assert_eq!(set.get(4), None);
    assert_eq!(set.get(6), None);
    assert_eq!(set.get(1_000_000), None);
    assert_eq!(set.get(u64::MAX), None);
}

#[test]
fn inserting_twice_replaces_the_value_without_growing() {
    let mut set = SparseSet::new();
    set.insert(2, 20);
    set.insert(9, 90);
    assert_eq!(set.len(), 2);
    set.insert(2, 21);
    assert_eq!(set.len(), 2);
    assert_eq!(set.get(2), Some(&21));
    assert_eq!(set.get(9), Some(&90));
}

#[test]
fn get_mut_changes_the_stored_value() {
    let mut set = SparseSet::new();
    set.insert(1, 10);
    set.insert(2, 20);
    if let Some(value) = set.get_mut(1) {
        *value += 5;
    }
    assert_eq!(set.get(1), Some(&15));
    assert_eq!(set.get(2), Some(&20));
    assert_eq!(set.len(), 2);
}

#[test]
fn get_mut_of_an_absent_key_is_none() {
    let mut set = SparseSet::new();
    set.insert(1, 10);
    assert!(set.get_mut(0).is_none());
    assert!(set.get_mut(2).is_none());
    assert!(set.get_mut(u64::MAX).is_none());
    assert_eq!(set.get(1), Some(&10));
}

#[test]
fn remove_returns_the_value_and_forgets_the_key() {
    let mut set = SparseSet::new();
    set.insert(4, "four");
    assert_eq!(set.remove(4), Some("four"));
    assert_eq!(set.get(4), None);
    assert_eq!(set.len(), 0);
    assert!(set.is_empty());
    assert_eq!(set.remove(4), None);
}

#[test]
fn removing_a_key_keeps_every_other_key() {
    let mut set = SparseSet::new();
    for key in 0..6u64 {
        set.insert(key, key + 100);
    }
    assert_eq!(set.remove(2), Some(102));
    assert_eq!(set.len(), 5);
    assert_eq!(set.get(2), None);
    for key in [0u64, 1, 3, 4, 5] {
        assert_eq!(set.get(key), Some(&(key + 100)));
    }
}

#[test]
fn removing_the_first_key_moves_the_last_entry() {
    let mut set = SparseSet::new();
    set.insert(10, 'a');
    set.insert(20, 'b');
    set.insert(30, 'c');
    assert_eq!(set.remove(10), Some('a'));
    assert_eq!(set.get(30), Some(&'c'));
    assert_eq!(set.get(20), Some(&'b'));
    assert_eq!(set.remove(30), Some('c'));
    assert_eq!(set.get(20), Some(&'b'));
    assert_eq!(set.remove(20), Some('b'));
    assert!(set.is_empty());
}

#[test]
fn removing_the_last_inserted_key_keeps_the_rest() {
    let mut set = SparseSet::new();
    set.insert(1, 1);
    set.insert(2, 2);
    set.insert(3, 3);
    assert_eq!(set.remove(3), Some(3));
    assert_eq!(set.get(1), Some(&1));
    assert_eq!(set.get(2), Some(&2));
    assert_eq!(set.len(), 2);
}

#[test]
fn removing_an_absent_key_returns_nothing_and_keeps_len() {
    let mut set = SparseSet::new();
    set.insert(1, 1);
    set.insert(7, 7);
    assert_eq!(set.remove(3), None);
    assert_eq!(set.remove(8), None);
    assert_eq!(set.remove(u64::MAX), None);
    assert_eq!(set.len(), 2);
    assert_eq!(set.get(1), Some(&1));
    assert_eq!(set.get(7), Some(&7));
}

#[test]
fn removing_from_an_empty_set_returns_nothing() {
    let mut set: SparseSet<u8> = SparseSet::new();
    assert_eq!(set.remove(0), None);
    assert_eq!(set.len(), 0);
}

#[test]
fn a_removed_key_can_be_inserted_again() {
    let mut set = SparseSet::new();
    set.insert(5, "old");
    set.insert(6, "other");
    assert_eq!(set.remove(5), Some("old"));
    set.insert(5, "new");
    assert_eq!(set.get(5), Some(&"new"));
    assert_eq!(set.get(6), Some(&"other"));
    assert_eq!(set.len(), 2);
}

#[test]
fn values_need_not_be_copyable() {
    let mut set = SparseSet::new();
    set.insert(0, String::from("zero"));
    set.insert(1, String::from("one"));
    if let Some(value) = set.get_mut(1) {
        value.push('!');
    }
    assert_eq!(set.remove(0), Some(String::from("zero")));
    assert_eq!(set.get(1).map(|s| s.as_str()), Some("one!"));
}

#[test]
fn interleaved_inserts_and_removes_agree_with_a_map() {
    let mut set = SparseSet::new();
    let mut model = std::collections::BTreeMap::new();
    let mut state: u64 = 12345;
    for step in 0..2000u64 {
        state = state.wrapping_mul(6364136223846793005).wrapping_add(1442695040888963407);
        let key = (state >> 33) % 64;
        if (state >> 20) % 3 == 0 {
            assert_eq!(set.remove(key), model.remove(&key));
        } else {
            set.insert(key, step);
            model.insert(key, step);
        }
        assert_eq!(set.len(), model.len());
    }
    for key in 0..64u64 {
        assert_eq!(set.get(key), model.get(&key));
    }
}

#[test]
fn a_key_found_by_get_can_be_overwritten() {
    let mut set = SparseSet::new();
    for key in [8u64, 3, 5] {
        set.insert(key, key);
    }
    for key in 0..10u64 {
        if set.get(key).is_some() {
            let before = set.len();
            set.insert(key, key + 100);
            assert_eq!(set.len(), before);
            assert_eq!(set.get(key), Some(&(key + 100)));
        }
    }
    assert_eq!(set.len(), 3);
    assert_eq!(set.get(8), Some(&108));
    assert_eq!(set.get(3), Some(&103));
    assert_eq!(set.get(5), Some(&105));
}
