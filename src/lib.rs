//! An association list: a map backed by a vector of key-value pairs, for key
//! types that offer `==` alone, neither an order nor a hash.
//!
//! Every lookup scans the pairs from the front and compares keys with the key
//! type's `PartialEq`, so most operations take `O(n)`. No two stored pairs
//! have equal keys. Removal moves the last pair into the freed slot, which
//! changes the order of the remaining pairs.
//!
//! A key that is not equal to itself, such as a floating-point NaN, can be
//! inserted but is never found again: no lookup, removal or entry matches it.
//!
//! The contracts read the key type's `==` through vstd's `PartialEqSpec`.
//! Where `K::obeys_eq_spec()` holds, as for the integer types, they give each
//! result exactly over the model in [`model`]. For other key types, such as
//! the floating-point types, whose `==` vstd leaves unstated, they state what
//! holds whatever `==` returns: which pair was replaced or removed, and how
//! the length changed.
use std::collections::TryReserveError;
use std::marker::PhantomData;
use vstd::pervasive::cloned;
use vstd::prelude::*;
use vstd::std_specs::cmp::PartialEqSpec;
use vstd::std_specs::iter::IteratorSpec;

pub mod allocator;
pub mod entry;
pub mod iter;
pub mod laws;
pub mod model;
mod store;

pub use allocator::{Allocator, DummyAllocator};
pub use entry::{Entry, OccupiedEntry, VacantEntry};
pub use iter::{Drain, IntoKeys, IntoValues, IterMut, Keys, Values, ValuesMut};

use iter::rest_from;
use model::{
    clones_of, first_match, has_key, index_of, inserted, inserted_all, key_eq, keys_of,
    lemma_first_match_is_index_of, lemma_index_of, lemma_no_match, lemma_push_unique,
    lemma_same_keys_unique, lemma_swap_removed_unique, lookup, lookup_pair, removed,
    replace_value, same_entries, swap_removed, same_keys, unique_store, values_of,
};

verus! {

/// A map from keys to values, held as a vector of pairs in which no two keys
/// are equal.
///
/// The type parameter `A` names the allocation strategy of the backing vector.
#[derive(Debug)]
pub struct AssocList<K, V, A: Allocator = DummyAllocator> {
    vec: Vec<(K, V)>,
    phantom: PhantomData<A>,
}

impl<K: Clone, V: Clone, A: Allocator> Clone for AssocList<K, V, A> {
    /// A list holding a clone of each pair, at the same position.
    fn clone(&self) -> (r: Self)
        ensures
            r@.len() == self@.len(),
            forall|i: int| 0 <= i < self@.len() ==> cloned::<(K, V)>(self@[i], #[trigger] r@[i]),
    {
        AssocList { vec: self.vec.clone(), phantom: PhantomData }
    }
}

/// Scans `vec` from the front for the first pair whose key equals `key`.
pub(crate) fn find<K: PartialEq, V>(vec: &Vec<(K, V)>, key: &K) -> (r: Option<usize>)
    ensures
        r matches Some(i) ==> i < vec@.len(),
        K::obeys_eq_spec() ==> match r {
            Some(i) => i as int == index_of(vec@, *key),
            None => index_of(vec@, *key) == -1,
        },
        K::obeys_eq_spec() ==> (r is Some <==> has_key(vec@, *key)),
{
    let mut i: usize = 0;
    while i < vec.len()
        invariant
            0 <= i <= vec@.len(),
            K::obeys_eq_spec() ==> forall|j: int| 0 <= j < i ==> !#[trigger] key_eq(vec@[j].0, *key),
        decreases vec@.len() - i,
    {
        if vec[i].0 == *key {
            proof {
                if K::obeys_eq_spec() {
                    assert(first_match(vec@, *key, i as int));
                    lemma_first_match_is_index_of(vec@, *key, i as int);
                    lemma_index_of(vec@, *key);
                }
            }
            return Some(i);
        }
        i += 1;
    }
    proof {
        if K::obeys_eq_spec() {
            lemma_no_match(vec@, *key);
        }
    }
    None
}

impl<K, V> AssocList<K, V> {
    /// Creates an empty list.
    pub fn new() -> (r: Self)
        ensures
            r@ == Seq::<(K, V)>::empty(),
    {
        AssocList { vec: Vec::new(), phantom: PhantomData }
    }

    /// Creates an empty list whose backing vector has room for at least
    /// `capacity` pairs.
    pub fn with_capacity(capacity: usize) -> (r: Self)
        ensures
            r@ == Seq::<(K, V)>::empty(),
    {
        AssocList { vec: Vec::with_capacity(capacity), phantom: PhantomData }
    }
}

impl<K, V, A: Allocator> AssocList<K, V, A> {
    /// The pairs, in the order of the backing vector.
    pub closed spec fn view(&self) -> Seq<(K, V)> {
        self.vec@
    }

    /// Creates an empty list with the allocation strategy `alloc`.
    pub fn new_in(_alloc: A) -> (r: Self)
        ensures
            r@ == Seq::<(K, V)>::empty(),
    {
        AssocList { vec: Vec::new(), phantom: PhantomData }
    }

    /// Creates an empty list with room for at least `capacity` pairs and the
    /// allocation strategy `alloc`.
    pub fn with_capacity_in(capacity: usize, _alloc: A) -> (r: Self)
        ensures
            r@ == Seq::<(K, V)>::empty(),
    {
        AssocList { vec: Vec::with_capacity(capacity), phantom: PhantomData }
    }

    /// The keys, in order, by reference.
    pub fn keys(&self) -> (r: Keys<'_, K, V>)
        ensures
            r.remaining() == keys_of(self@),
    {
        let r = Keys { pairs: self.vec.as_slice(), pos: 0 };
        proof {
            assert(rest_from(self@, 0) =~= self@);
        }
        r
    }

    /// The values, in order, by reference.
    pub fn values(&self) -> (r: Values<'_, K, V>)
        ensures
            r.remaining() == values_of(self@),
    {
        let r = Values { pairs: self.vec.as_slice(), pos: 0 };
        proof {
            assert(rest_from(self@, 0) =~= self@);
        }
        r
    }

    /// The keys, in order, by value.
    pub fn into_keys(self) -> (r: IntoKeys<K, V, A>)
        ensures
            r.remaining() == keys_of(self@),
    {
        let ghost s = self.vec@;
        let r = IntoKeys { rev: iter::reversed(self.vec), phantom: PhantomData };
        proof {
            assert(s.reverse().reverse() =~= s);
        }
        r
    }

    /// The values, in order, by value.
    pub fn into_values(self) -> (r: IntoValues<K, V, A>)
        ensures
            r.remaining() == values_of(self@),
    {
        let ghost s = self.vec@;
        let r = IntoValues { rev: iter::reversed(self.vec), phantom: PhantomData };
        proof {
            assert(s.reverse().reverse() =~= s);
        }
        r
    }

    /// The pairs, in order, by reference.
    pub fn iter(&self) -> (r: std::slice::Iter<'_, (K, V)>)
        ensures
            r.remaining() == self@.as_ref(),
    {
        self.vec.iter()
    }

    /// The pairs, in order, with mutable access to the values.
    pub fn iter_mut(&mut self) -> (r: IterMut<'_, K, V>)
        ensures
            r.rest()@ == old(self)@,
            final(self)@ == final(r.rest())@,
    {
        IterMut { rest: self.vec.as_mut_slice() }
    }

    /// The values, in order, by mutable reference.
    pub fn values_mut(&mut self) -> (r: ValuesMut<'_, K, V>)
        ensures
            r.rest()@ == old(self)@,
            final(self)@ == final(r.rest())@,
    {
        ValuesMut { rest: self.vec.as_mut_slice() }
    }

    /// Takes every pair out of the list, which is empty afterwards, and hands
    /// them out in order.
    pub fn drain(&mut self) -> (r: Drain<'_, K, V, A>)
        ensures
            r.remaining() == old(self)@,
            final(self)@ == Seq::<(K, V)>::empty(),
    {
        let mut taken: Vec<(K, V)> = Vec::new();
        std::mem::swap(&mut self.vec, &mut taken);
        let ghost s = taken@;
        let r = Drain { rev: iter::reversed(taken), phantom: PhantomData };
        proof {
            assert(s.reverse().reverse() =~= s);
        }
        r
    }

    /// The number of pairs.
    pub fn len(&self) -> (r: usize)
        ensures
            r == self@.len(),
    {
        self.vec.len()
    }

    /// The number of pairs the list can hold without reallocating.
    pub fn capacity(&self) -> (r: usize) {
        store::capacity(&self.vec)
    }

    /// Whether the list holds no pair.
    pub fn is_empty(&self) -> (r: bool)
        ensures
            r == (self@.len() == 0),
    {
        self.vec.is_empty()
    }

    /// Removes every pair.
    pub fn clear(&mut self)
        ensures
            final(self)@ == Seq::<(K, V)>::empty(),
    {
        self.vec.clear();
    }

    /// Reserves room for at least `additional` more pairs.
    pub fn reserve(&mut self, additional: usize)
        ensures
            final(self)@ == old(self)@,
    {
        self.vec.reserve(additional);
    }

    /// Reserves room for at least `additional` more pairs, without
    /// deliberately over-allocating.
    pub fn reserve_exact(&mut self, additional: usize)
        ensures
            final(self)@ == old(self)@,
    {
        store::reserve_exact(&mut self.vec, additional);
    }

    /// Tries to reserve room for at least `additional` more pairs; an error
    /// leaves the list as it was.
    pub fn try_reserve(&mut self, additional: usize) -> (r: Result<(), TryReserveError>)
        ensures
            final(self)@ == old(self)@,
    {
        self.vec.try_reserve(additional)
    }

    /// Tries to reserve room for at least `additional` more pairs, without
    /// deliberately over-allocating; an error leaves the list as it was.
    pub fn try_reserve_exact(&mut self, additional: usize) -> (r: Result<(), TryReserveError>)
        ensures
            final(self)@ == old(self)@,
    {
        store::try_reserve_exact(&mut self.vec, additional)
    }

    /// Shrinks the capacity, keeping at least `min_capacity` and the length.
    pub fn shrink_to(&mut self, min_capacity: usize)
        ensures
            final(self)@ == old(self)@,
    {
        store::shrink_to(&mut self.vec, min_capacity);
    }

    /// Shrinks the capacity as close to the length as the allocator allows.
    pub fn shrink_to_fit(&mut self)
        ensures
            final(self)@ == old(self)@,
    {
        store::shrink_to_fit(&mut self.vec);
    }
}

impl<K: PartialEq, V, A: Allocator> AssocList<K, V, A> {
    /// The invariant: no two stored keys are equal, wherever vstd describes
    /// the key type's `==` as a symmetric and transitive relation.
    pub open spec fn wf(&self) -> bool {
        unique_store(self@)
    }

    /// Whether some stored key equals `key`.
    pub fn contains_key(&self, key: &K) -> (r: bool)
        ensures
            K::obeys_eq_spec() ==> r == has_key(self@, *key),
    {
        find(&self.vec, key).is_some()
    }

    /// The value stored for `key`, if any.
    pub fn get(&self, key: &K) -> (r: Option<&V>)
        ensures
            K::obeys_eq_spec() ==> match r {
                Some(v) => lookup(self@, *key) == Some(*v),
                None => lookup(self@, *key) is None,
            },
            r matches Some(v) ==> exists|i: int| 0 <= i < self@.len() && self@[i].1 == *v,
    {
        match find(&self.vec, key) {
            Some(i) => Some(&self.vec[i].1),
            None => None,
        }
    }

    /// The stored key and value for `key`, if any.
    pub fn get_key_value(&self, key: &K) -> (r: Option<(&K, &V)>)
        ensures
            K::obeys_eq_spec() ==> match r {
                Some((k, v)) => lookup_pair(self@, *key) == Some((*k, *v)),
                None => lookup_pair(self@, *key) is None,
            },
    {
        match find(&self.vec, key) {
            Some(i) => {
                let pair = &self.vec[i];
                Some((&pair.0, &pair.1))
            },
            None => None,
        }
    }

    /// Mutable access to the value stored for `key`, if any.
    pub fn get_mut(&mut self, key: &K) -> (r: Option<&mut V>)
        ensures
            K::obeys_eq_spec() ==> match r {
                Some(v) => {
                    &&& lookup(old(self)@, *key) == Some(*v)
                    &&& final(self)@ == replace_value(
                        old(self)@,
                        index_of(old(self)@, *key),
                        *final(v),
                    )
                },
                None => lookup(old(self)@, *key) is None,
            },
            r is None ==> final(self)@ == old(self)@,
            same_keys(old(self)@, final(self)@),
            old(self).wf() ==> final(self).wf(),
    {
        match find(&self.vec, key) {
            Some(i) => {
                let pair = &mut self.vec[i];
                Some(&mut pair.1)
            },
            None => None,
        }
    }

    /// Inserts `value` for `key`. Where a stored key equals `key`, its value is
    /// replaced and returned, and the stored key stays; otherwise the pair is
    /// appended.
    pub fn insert(&mut self, key: K, value: V) -> (r: Option<V>)
        ensures
            K::obeys_eq_spec() ==> r == lookup(old(self)@, key),
            K::obeys_eq_spec() ==> final(self)@ == inserted(old(self)@, key, value),
            r matches Some(v) ==> exists|i: int|
                0 <= i < old(self)@.len() && old(self)@[i].1 == v && final(self)@ == replace_value(
                    old(self)@,
                    i,
                    value,
                ),
            r is Some ==> final(self)@.len() == old(self)@.len(),
            r is None ==> final(self)@ == old(self)@.push((key, value)),
            old(self).wf() ==> final(self).wf(),
    {
        let ghost s = self.vec@;
        match find(&self.vec, &key) {
            Some(i) => {
                let pair = &mut self.vec[i];
                let mut previous = value;
                std::mem::swap(&mut pair.1, &mut previous);
                proof {
                    assert(self.vec@ =~= replace_value(s, i as int, value));
                    assert(same_keys(s, self.vec@));
                    if unique_store(s) {
                        lemma_same_keys_unique(s, self.vec@);
                    }
                }
                Some(previous)
            },
            None => {
                proof {
                    if K::obeys_eq_spec() {
                        lemma_index_of(s, key);
                    }
                    if unique_store(s) {
                        lemma_push_unique(s, key, value);
                    }
                }
                self.vec.push((key, value));
                None
            },
        }
    }

    /// The view into the slot of `key`, found by one scan from the front.
    pub fn entry(&mut self, key: K) -> (r: Entry<'_, K, V, A>)
        ensures
            r.store()@ == old(self)@,
            final(self)@ == final(r.store())@,
            r.view_key() == key,
            r.valid(),
            K::obeys_eq_spec() ==> (r is Occupied <==> has_key(old(self)@, key)),
    {
        match find(&self.vec, &key) {
            Some(index) => Entry::Occupied(
                OccupiedEntry { vec: &mut self.vec, phantom: PhantomData, index, key },
            ),
            None => Entry::Vacant(VacantEntry { vec: &mut self.vec, phantom: PhantomData, key }),
        }
    }

    /// Removes the pair whose key equals `key` and returns its value. The last
    /// pair takes the freed position.
    pub fn remove(&mut self, key: &K) -> (r: Option<V>)
        ensures
            K::obeys_eq_spec() ==> r == lookup(old(self)@, *key),
            K::obeys_eq_spec() ==> final(self)@ == removed(old(self)@, *key),
            r matches Some(v) ==> exists|i: int|
                0 <= i < old(self)@.len() && old(self)@[i].1 == v && final(self)@ == swap_removed(
                    old(self)@,
                    i,
                ),
            r is Some ==> final(self)@.len() == old(self)@.len() - 1,
            r is None ==> final(self)@ == old(self)@,
            old(self).wf() ==> final(self).wf(),
    {
        match self.remove_entry(key) {
            Some((_k, v)) => Some(v),
            None => None,
        }
    }

    /// Removes the pair whose key equals `key` and returns it. The last pair
    /// takes the freed position.
    pub fn remove_entry(&mut self, key: &K) -> (r: Option<(K, V)>)
        ensures
            K::obeys_eq_spec() ==> r == lookup_pair(old(self)@, *key),
            K::obeys_eq_spec() ==> final(self)@ == removed(old(self)@, *key),
            r matches Some(p) ==> exists|i: int|
                0 <= i < old(self)@.len() && old(self)@[i] == p && final(self)@ == swap_removed(
                    old(self)@,
                    i,
                ),
            r is Some ==> final(self)@.len() == old(self)@.len() - 1,
            r is None ==> final(self)@ == old(self)@,
            old(self).wf() ==> final(self).wf(),
    {
        match find(&self.vec, key) {
            Some(i) => {
                proof {
                    if unique_store(self.vec@) {
                        lemma_swap_removed_unique(self.vec@, i as int);
                    }
                }
                Some(self.vec.swap_remove(i))
            },
            None => None,
        }
    }
}


impl<K: PartialEq, V, A: Allocator> AssocList<K, V, A> {
    /// Inserts the pairs of `pairs` one after another, from the front: of
    /// equal keys, the later value wins.
    pub fn extend(&mut self, pairs: Vec<(K, V)>)
        ensures
            K::obeys_eq_spec() ==> final(self)@ == inserted_all(old(self)@, pairs@),
            old(self).wf() ==> final(self).wf(),
    {
        let ghost s = self.vec@;
        let ghost p = pairs@;
        for pair in it: pairs
            invariant
                it.seq() == p,
                K::obeys_eq_spec() ==> self.vec@ == inserted_all(s, p.take(it.index() as int)),
                unique_store(s) ==> unique_store(self.vec@),
        {
            let ghost before = self.vec@;
            let (key, value) = pair;
            let _ = self.insert(key, value);
            proof {
                let n = it.index() as int;
                assert(p.take(n + 1).drop_last() == p.take(n));
                assert(p.take(n + 1).last() == pair);
            }
        }
        proof {
            assert(p.take(p.len() as int) == p);
        }
    }

    /// Inserts a clone of each pair of `pairs`, one after another, from the
    /// front: of equal keys, the later value wins.
    pub fn extend_cloned(&mut self, pairs: &[(K, V)])
        where
            K: Clone,
            V: Clone,
        ensures
            exists|c: Seq<(K, V)>|
                #[trigger] clones_of(pairs@, c) && (K::obeys_eq_spec() ==> final(self)@
                    == inserted_all(old(self)@, c)),
            old(self).wf() ==> final(self).wf(),
    {
        let ghost s = self.vec@;
        let ghost mut c: Seq<(K, V)> = Seq::empty();
        let mut i: usize = 0;
        while i < pairs.len()
            invariant
                0 <= i <= pairs@.len(),
                clones_of(pairs@.take(i as int), c),
                K::obeys_eq_spec() ==> self.vec@ == inserted_all(s, c),
                unique_store(s) ==> unique_store(self.vec@),
            decreases pairs@.len() - i,
        {
            let key = pairs[i].0.clone();
            let value = pairs[i].1.clone();
            assert(cloned(pairs@[i as int].0, key));
            let _ = self.insert(key, value);
            proof {
                let c2 = c.push((key, value));
                assert(c2.drop_last() == c);
                let t = pairs@.take(i + 1);
                assert forall|j: int| 0 <= j < c2.len() implies cloned(t[j].0, #[trigger] c2[j].0)
                    && cloned(t[j].1, c2[j].1) by {
                    if j < i {
                        assert(t[j] == pairs@.take(i as int)[j]);
                    } else {
                        assert(t[j] == pairs@[j]);
                    }
                }
                c = c2;
            }
            i += 1;
        }
        proof {
            assert(pairs@.take(pairs@.len() as int) == pairs@);
            assert(clones_of(pairs@, c));
        }
    }
}

impl<K: PartialEq, V> AssocList<K, V> {
    /// Builds a list by inserting the pairs of `pairs` one after another: of
    /// equal keys, the later value wins.
    pub fn from_iter(pairs: Vec<(K, V)>) -> (r: Self)
        ensures
            K::obeys_eq_spec() ==> r@ == inserted_all(Seq::empty(), pairs@),
            r.wf(),
    {
        let mut list = AssocList::new();
        list.extend(pairs);
        list
    }
}

impl<K: PartialEq, V, const N: usize> From<[(K, V); N]> for AssocList<K, V> {
    /// Builds a list by inserting the pairs of `array` one after another: of
    /// equal keys, the later value wins.
    fn from(array: [(K, V); N]) -> (r: Self)
        ensures
            K::obeys_eq_spec() ==> r@ == inserted_all(Seq::empty(), array@),
            r.wf(),
    {
        let mut list = AssocList::with_capacity(N);
        list.extend(store::vec_from_array(array));
        list
    }
}

impl<K: PartialEq, V, const N: usize> vstd::std_specs::convert::FromSpecImpl<[(K, V); N]> for AssocList<K, V> {
    open spec fn obeys_from_spec() -> bool {
        false
    }

    open spec fn from_spec(v: [(K, V); N]) -> Self {
        arbitrary()
    }
}

impl<K: Default, V: Default> Default for AssocList<K, V> {
    fn default() -> (r: Self)
        ensures
            r@ == Seq::<(K, V)>::empty(),
    {
        AssocList { vec: Vec::new(), phantom: PhantomData }
    }
}

impl<K: PartialEq, V: PartialEq, A: Allocator> PartialEq for AssocList<K, V, A> {
    /// Two lists are equal when they have the same length and the second
    /// holds, for each key of the first, a value equal to the first's.
    fn eq(&self, other: &Self) -> (r: bool) {
        if self.vec.len() != other.vec.len() {
            return false;
        }
        let mut i: usize = 0;
        while i < self.vec.len()
            invariant
                0 <= i <= self.vec@.len(),
                self.vec@.len() == other.vec@.len(),
                K::obeys_eq_spec() && V::obeys_eq_spec() ==> forall|j: int|
                    0 <= j < i ==> match #[trigger] lookup(other.vec@, self.vec@[j].0) {
                        Some(w) => w.eq_spec(&self.vec@[j].1),
                        None => false,
                    },
            decreases self.vec@.len() - i,
        {
            let pair = &self.vec[i];
            match other.get(&pair.0) {
                Some(w) => {
                    if !(*w == pair.1) {
                        return false;
                    }
                },
                None => {
                    return false;
                },
            }
            i += 1;
        }
        true
    }
}

impl<K: PartialEq, V: PartialEq, A: Allocator> vstd::std_specs::cmp::PartialEqSpecImpl for AssocList<K, V, A> {
    open spec fn obeys_eq_spec() -> bool {
        K::obeys_eq_spec() && V::obeys_eq_spec()
    }

    open spec fn eq_spec(&self, other: &Self) -> bool {
        same_entries(self@, other@)
    }
}

impl<K: Eq, V: Eq, A: Allocator> Eq for AssocList<K, V, A> {

}

impl<K: PartialEq, V, A: Allocator> core::ops::Index<K> for AssocList<K, V, A> {
    type Output = V;

    /// The value stored for `key`; the key must be present.
    fn index(&self, key: K) -> (r: &V)
        ensures
            lookup(self@, key) == Some(*r),
    {
        proof {
            lemma_index_of(self@, key);
        }
        match self.get(&key) {
            Some(v) => v,
            None => vstd::pervasive::unreached(),
        }
    }
}

impl<K: PartialEq, V, A: Allocator> vstd::std_specs::core::IndexSpecImpl<K> for AssocList<K, V, A> {
    open spec fn index_req(&self, key: &K) -> bool {
        K::obeys_eq_spec() && has_key(self@, *key)
    }
}

impl<K: PartialEq, V, A: Allocator> core::ops::IndexMut<K> for AssocList<K, V, A> {
    /// Mutable access to the value stored for `key`; the key must be present.
    fn index_mut(&mut self, key: K) -> (r: &mut V)
        requires
            vstd::std_specs::core::IndexSpec::index_req(&*old(self), &key),
        ensures
            lookup(old(self)@, key) == Some(*r),
            final(self)@ == replace_value(old(self)@, index_of(old(self)@, key), *final(r)),
            old(self).wf() ==> final(self).wf(),
    {
        proof {
            lemma_index_of(self@, key);
        }
        match self.get_mut(&key) {
            Some(v) => v,
            None => vstd::pervasive::unreached(),
        }
    }
}

impl<K, V, A: Allocator> IntoIterator for AssocList<K, V, A> {
    type Item = (K, V);

    type IntoIter = std::vec::IntoIter<(K, V)>;

    /// Hands out the pairs, in order, by value.
    fn into_iter(self) -> (r: std::vec::IntoIter<(K, V)>)
        ensures
            r.remaining() == self@,
    {
        self.vec.into_iter()
    }
}

impl<'a, K, V, A: Allocator> IntoIterator for &'a AssocList<K, V, A> {
    type Item = &'a (K, V);

    type IntoIter = std::slice::Iter<'a, (K, V)>;

    /// Hands out the pairs, in order, by reference.
    fn into_iter(self) -> (r: std::slice::Iter<'a, (K, V)>)
        ensures
            r.remaining() == self@.as_ref(),
    {
        self.vec.iter()
    }
}

} // verus!
