use std::collections::BTreeMap;

use associated_list::{Allocator, AssocList, DummyAllocator};

fn unique_ord_keys<K: Ord, V, A: Allocator>(assoc_list: AssocList<K, V, A>) -> bool {
    let size = assoc_list.len();
    let b_tree_map: BTreeMap<_, _> = assoc_list.into_iter().collect();
    size == b_tree_map.len()
}

#[test]
fn new_in() {
    let assoc_list: AssocList<usize, f64, _> = AssocList::new_in(DummyAllocator);
    assert!(assoc_list.is_empty());
    assert!(unique_ord_keys(assoc_list));
}

#[test]
fn with_capacity_in() {
    const CAPACITY: usize = 3;
    let assoc_list: AssocList<u16, f32, _> = AssocList::with_capacity_in(CAPACITY, DummyAllocator);
    assert!(assoc_list.is_empty());
    assert_eq!(assoc_list.capacity(), CAPACITY);
    assert!(unique_ord_keys(assoc_list));
}
