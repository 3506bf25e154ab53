use std::collections::{BTreeMap, BTreeSet};

use associated_list::AssocList;

#[test]
fn keys() {
    const CAPACITY: usize = 5;
    let mut assoc_list: AssocList<i8, i8> = AssocList::with_capacity(CAPACITY);
    for i in 0..i8::try_from(CAPACITY).expect("small test number") {
        let previous = assoc_list.insert(-i - 1, i);
        assert!(previous.is_none());
    }
    let mut keys = assoc_list.keys();
    let mut all_negative = true;
    while let Some(key) = keys.next() {
        all_negative &= key.is_negative();
    }
    assert!(all_negative);
}

#[test]
fn into_keys() {
    const CAPACITY: usize = 17;
    let mut assoc_list: AssocList<i8, i8> = AssocList::with_capacity(CAPACITY);
    for i in 0..i8::try_from(CAPACITY).expect("small test number") {
        let previous = assoc_list.insert(i + 1, -i);
        assert!(previous.is_none());
    }
    let mut keys = assoc_list.into_keys();
    let mut all_positive = true;
    while let Some(key) = keys.next() {
        all_positive &= key.is_positive();
    }
    assert!(all_positive);
}

#[test]
fn values() {
    const CAPACITY: usize = 62;
    let capacity_i16 = i16::try_from(CAPACITY).expect("small test number");
    let mut assoc_list = AssocList::with_capacity(CAPACITY);
    let mut reference_map = BTreeMap::new();
    for i in (-capacity_i16..capacity_i16).rev() {
        let key = i % (capacity_i16 / 7);
        let value = i.leading_ones();
        // there might be duplicate values
        let _ = reference_map.insert(key, value);
        let _ = assoc_list.insert(key, value);
    }
    let expected_values: BTreeSet<_> = reference_map.values().copied().collect();
    let mut actual_values = BTreeSet::new();
    let mut values = assoc_list.values();
    while let Some(value) = values.next() {
        actual_values.insert(*value);
    }
    assert_eq!(actual_values, expected_values);
}

#[test]
fn values_mut() {
    const CAPACITY: usize = 62;
    let capacity_i16 = i16::try_from(CAPACITY).expect("small test number");
    let mut assoc_list = AssocList::with_capacity(CAPACITY);
    let mut reference_map = BTreeMap::new();
    for i in (-capacity_i16..capacity_i16).rev() {
        let key = i % (capacity_i16 / 4);
        let value = i.trailing_zeros();
        // there might be duplicate values
        let _ = reference_map.insert(key, value);
        let _ = assoc_list.insert(key, value);
    }
    let expected_values: BTreeSet<_> = reference_map.values_mut().map(|value| *value).collect();
    let mut actual_values = BTreeSet::new();
    let mut values = assoc_list.values_mut();
    while let Some(value) = values.next() {
        actual_values.insert(*value);
    }
    assert_eq!(
        actual_values, expected_values,
        "values_mut returns (mutable) references to the values"
    );

    let new_value = 3938;
    let mut values = assoc_list.values_mut();
    while let Some(value) = values.next() {
        *value = new_value;
    }
    let mut all_new = true;
    let mut values = assoc_list.values();
    while let Some(value) = values.next() {
        all_new &= *value == new_value;
    }
    assert!(all_new, "values_mut elements can influence the values in the AssocList");
}

#[test]
fn into_values() {
    const CAPACITY: usize = 62;
    let capacity_i16 = i16::try_from(CAPACITY).expect("small test number");
    let mut assoc_list = AssocList::with_capacity(CAPACITY);
    let mut reference_map = BTreeMap::new();
    for i in (-capacity_i16..capacity_i16).rev() {
        let key = i % (capacity_i16 / 9);
        let value = (i * 17) % 205;
        // there might be duplicate values
        let _ = reference_map.insert(key, value);
        let _ = assoc_list.insert(key, value);
    }
    let expected_values: BTreeSet<_> = reference_map.into_values().collect();
    let mut actual_values = BTreeSet::new();
    let mut values = assoc_list.into_values();
    while let Some(value) = values.next() {
        actual_values.insert(value);
    }
    assert_eq!(actual_values, expected_values);
}

#[test]
fn keys_come_in_storage_order() {
    let assoc_list = AssocList::from([(4, 'a'), (1, 'b'), (9, 'c')]);
    let mut keys = assoc_list.keys();
    assert_eq!(keys.next(), Some(&4));
    assert_eq!(keys.next(), Some(&1));
    assert_eq!(keys.next(), Some(&9));
    assert_eq!(keys.next(), None);
    assert_eq!(keys.next(), None);
    let mut into_keys = assoc_list.clone().into_keys();
    assert_eq!(into_keys.next(), Some(4));
    assert_eq!(into_keys.next(), Some(1));
    assert_eq!(into_keys.next(), Some(9));
    assert_eq!(into_keys.next(), None);
    let mut into_values = assoc_list.into_values();
    assert_eq!(into_values.next(), Some('a'));
    assert_eq!(into_values.next(), Some('b'));
    assert_eq!(into_values.next(), Some('c'));
    assert_eq!(into_values.next(), None);
}

#[test]
fn iter_and_iter_mut() {
    let mut assoc_list = AssocList::from([(1, 10), (2, 20), (3, 30)]);
    let seen: Vec<(i32, i32)> = assoc_list.iter().copied().collect();
    assert_eq!(seen, vec![(1, 10), (2, 20), (3, 30)]);
    let by_ref: Vec<(i32, i32)> = (&assoc_list).into_iter().copied().collect();
    assert_eq!(by_ref, seen);
    let mut iter_mut = assoc_list.iter_mut();
    while let Some((key, value)) = iter_mut.next() {
        *value += *key;
    }
    assert_eq!(assoc_list.get(&1), Some(&11));
    assert_eq!(assoc_list.get(&2), Some(&22));
    assert_eq!(assoc_list.get(&3), Some(&33));
}

#[test]
fn drain_yields_every_pair_once_and_empties() {
    let mut assoc_list = AssocList::from([(5, "five"), (6, "six"), (7, "seven")]);
    let mut drained = Vec::new();
    let mut drain = assoc_list.drain();
    while let Some(pair) = drain.next() {
        drained.push(pair);
    }
    drop(drain);
    drained.sort();
    assert_eq!(drained, vec![(5, "five"), (6, "six"), (7, "seven")]);
    assert!(assoc_list.is_empty());
    assert_eq!(assoc_list.len(), 0);
}

#[test]
fn abandoned_drain_still_empties() {
    let mut assoc_list = AssocList::from([(1, 'x'), (2, 'y'), (3, 'z')]);
    let mut drain = assoc_list.drain();
    assert_eq!(drain.next(), Some((1, 'x')));
    drop(drain);
    assert!(assoc_list.is_empty());
    let _ = assoc_list.insert(4, 'w');
    assert_eq!(assoc_list.len(), 1);
}
