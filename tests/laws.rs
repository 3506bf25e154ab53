use associated_list::AssocList;

fn keys_unique<K: PartialEq, V: Clone>(assoc_list: &AssocList<K, V>) -> bool
where
    K: Clone,
{
    let pairs: Vec<(K, V)> = assoc_list.iter().cloned().collect();
    for i in 0..pairs.len() {
        for j in 0..pairs.len() {
            if i != j && pairs[i].0 == pairs[j].0 {
                return false;
            }
        }
    }
    true
}

#[test]
fn keys_stay_unique_through_mixed_operations() {
    let mut assoc_list: AssocList<i32, i32> = AssocList::new();
    for step in 0..60 {
        let key = (step * 7) % 11;
        match step % 4 {
            0 | 1 => {
                let _ = assoc_list.insert(key, step);
            },
            2 => {
                let _ = assoc_list.remove(&((step * 3) % 11));
            },
            _ => {
                *assoc_list.entry(key).or_insert(step) += 1;
            },
        }
        assert!(keys_unique(&assoc_list));
    }
}

#[test]
fn get_after_insert_finds_the_value() {
    let mut assoc_list = AssocList::from([(1, "a"), (2, "b")]);
    let _ = assoc_list.insert(2, "z");
    assert_eq!(assoc_list.get(&2), Some(&"z"));
    let _ = assoc_list.insert(3, "c");
    assert_eq!(assoc_list.get(&3), Some(&"c"));
    assert_eq!(assoc_list.get_key_value(&3), Some((&3, &"c")));
}

#[test]
fn insert_replaces_or_appends() {
    let mut assoc_list = AssocList::from([(1, 100)]);
    assert_eq!(assoc_list.insert(1, 101), Some(100));
    assert_eq!(assoc_list.len(), 1);
    assert_eq!(assoc_list.insert(2, 200), None);
    assert_eq!(assoc_list.len(), 2);
}

#[test]
fn remove_present_and_absent() {
    let mut assoc_list = AssocList::from([(1, 100), (2, 200), (3, 300)]);
    assert_eq!(assoc_list.remove(&1), Some(100));
    assert_eq!(assoc_list.len(), 2);
    // the last pair took the freed position
    let order: Vec<i32> = assoc_list.iter().map(|pair| pair.0).collect();
    assert_eq!(order, vec![3, 2]);
    assert_eq!(assoc_list.remove(&1), None);
    assert_eq!(assoc_list.len(), 2);
}

#[test]
fn or_insert_matches_lookup_then_insert() {
    let mut with_entry = AssocList::from([(1, 10)]);
    let mut explicit = with_entry.clone();
    let _ = with_entry.entry(1).or_insert(99);
    let _ = with_entry.entry(2).or_insert(20);
    for (key, default) in [(1, 99), (2, 20)] {
        if explicit.get(&key).is_none() {
            let _ = explicit.insert(key, default);
        }
    }
    assert!(with_entry == explicit);
    assert_eq!(with_entry.get(&1), Some(&10));
    assert_eq!(with_entry.get(&2), Some(&20));
}

#[test]
fn later_pairs_win_when_building() {
    let assoc_list = AssocList::from([(3, 7), (8, -1), (3, 0)]);
    assert_eq!(assoc_list.len(), 2);
    assert_eq!(assoc_list.get(&3), Some(&0));
    assert_eq!(assoc_list.get(&8), Some(&-1));
    let folded = {
        let mut list = AssocList::new();
        for (key, value) in [(3, 7), (8, -1), (3, 0)] {
            let _ = list.insert(key, value);
        }
        list
    };
    assert!(assoc_list == folded);
}

#[test]
fn get_mut_writes_through() {
    let mut assoc_list = AssocList::from([("x", 1), ("y", 2)]);
    if let Some(value) = assoc_list.get_mut(&"y") {
        *value = 20;
    }
    assert_eq!(assoc_list.get(&"y"), Some(&20));
    assert!(assoc_list.get_mut(&"z").is_none());
    assert_eq!(assoc_list.len(), 2);
}

#[test]
fn clear_empties() {
    let mut assoc_list = AssocList::from([(1, 1), (2, 2)]);
    assoc_list.clear();
    assert!(assoc_list.is_empty());
    assoc_list.clear();
    assert!(assoc_list.is_empty());
}

#[test]
fn try_reserve_reports_overflow_and_keeps_contents() {
    let mut assoc_list = AssocList::from([(1, 1)]);
    assert!(assoc_list.try_reserve(usize::MAX).is_err());
    assert!(assoc_list.try_reserve_exact(usize::MAX).is_err());
    assert_eq!(assoc_list.len(), 1);
    assert_eq!(assoc_list.get(&1), Some(&1));
}

#[test]
fn occupied_entry_keeps_the_stored_key_position() {
    let mut assoc_list = AssocList::from([(1, 'a'), (2, 'b'), (3, 'c')]);
    if let associated_list::Entry::Occupied(occupied) = assoc_list.entry(1) {
        assert_eq!(occupied.remove(), 'a');
    }
    let order: Vec<i32> = assoc_list.iter().map(|pair| pair.0).collect();
    assert_eq!(order, vec![3, 2]);
}
