//! Testing [`f32`] as an example for keys not implementing [`Ord`] and [`Hash`].

use associated_list::AssocList;

#[test]
fn f32_keys_insert() {
    const DUPLICATED_KEY: f32 = 5.3;
    const SOME_VALUE: &str = "Some value";
    const SOME_OTHER_VALUE: &str = "Some other value";
    const ANOTHER_KEY: f32 = -6.8;
    const ANOTHER_VALUE: &str = "Another value";

    let mut assoc_list = AssocList::new();

    let initial = assoc_list.insert(DUPLICATED_KEY, SOME_VALUE);
    assert!(initial.is_none(), "Initially, no key should have a value");

    let previous = assoc_list.insert(DUPLICATED_KEY, SOME_OTHER_VALUE);
    assert_eq!(previous, Some(SOME_VALUE), "The returned value shall be the previous value");

    let another_initial = assoc_list.insert(ANOTHER_KEY, ANOTHER_VALUE);
    assert!(another_initial.is_none(), "Initially, no key should have a value");

    assert_eq!(assoc_list.len(), 2);
    assert!(unique_keys(assoc_list), "Keys shall be unique");
}

// O(n^2)
fn unique_keys<K: PartialEq, V>(assoc_list: AssocList<K, V>) -> bool {
    let mut vec: Vec<_> = assoc_list.into_iter().collect();
    while let Some((key, _value)) = vec.pop() {
        if vec.iter().any(|(remaining_key, _remaining_value)| key == *remaining_key) {
            return false;
        }
    }
    true
}

#[test]
fn nan_key_is_inserted_but_never_found() {
    let mut assoc_list = AssocList::from([(1.0_f32, 'a')]);
    assert_eq!(assoc_list.insert(f32::NAN, 'n'), None);
    assert_eq!(assoc_list.len(), 2);
    assert!(!assoc_list.contains_key(&f32::NAN));
    assert_eq!(assoc_list.get(&f32::NAN), None);
    assert_eq!(assoc_list.remove(&f32::NAN), None);
    assert_eq!(assoc_list.len(), 2);
    // a second NaN is a second, distinct key
    assert_eq!(assoc_list.insert(f32::NAN, 'm'), None);
    assert_eq!(assoc_list.len(), 3);
    assert_eq!(assoc_list.get(&1.0), Some(&'a'));
}
