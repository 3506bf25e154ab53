//! Views into a single slot of an association list, obtained by one scan.
use std::marker::PhantomData;
use vstd::prelude::*;
use vstd::std_specs::cmp::PartialEqSpec;

use crate::allocator::{Allocator, DummyAllocator};
use crate::model::{
    has_key, index_of, inserted, lemma_index_of, lemma_push_unique, lemma_same_keys_unique,
    lemma_swap_removed_unique, lookup, replace_value, swap_removed, unique_store,
};

verus! {

/// A view into the slot of one key in an association list: either occupied
/// by a stored pair or vacant.
///
/// The view borrows the list exclusively, so the position it found stays
/// valid for as long as the view lives.
pub enum Entry<'a, K, V, A: Allocator = DummyAllocator> {
    /// The list holds a pair for the key.
    Occupied(OccupiedEntry<'a, K, V, A>),
    /// The list holds no pair for the key.
    Vacant(VacantEntry<'a, K, V, A>),
}

/// A view into a stored pair of an association list.
pub struct OccupiedEntry<'a, K, V, A: Allocator = DummyAllocator> {
    pub(crate) vec: &'a mut Vec<(K, V)>,
    pub(crate) phantom: PhantomData<A>,
    pub(crate) index: usize,
    pub(crate) key: K,
}

/// A view into the missing slot of a key in an association list.
pub struct VacantEntry<'a, K, V, A: Allocator = DummyAllocator> {
    pub(crate) vec: &'a mut Vec<(K, V)>,
    pub(crate) phantom: PhantomData<A>,
    pub(crate) key: K,
}

impl<'a, K, V, A: Allocator> OccupiedEntry<'a, K, V, A> {
    /// The borrowed backing vector of the list.
    pub open(crate) spec fn store(self) -> &'a mut Vec<(K, V)> {
        self.vec
    }

    /// The position of the pair in the backing vector.
    pub open(crate) spec fn index(self) -> int {
        self.index as int
    }

    /// The key that the view was created for.
    pub open(crate) spec fn view_key(self) -> K {
        self.key
    }

    /// The key that the view was created for.
    pub fn key(&self) -> (r: &K)
        ensures
            *r == self.view_key(),
    {
        &self.key
    }
}

impl<'a, K: PartialEq, V, A: Allocator> OccupiedEntry<'a, K, V, A> {
    /// The position lies in the list and, where `==` is specified, is the
    /// position that a scan for the key finds.
    pub open spec fn valid(self) -> bool {
        &&& 0 <= self.index() < self.store()@.len()
        &&& K::obeys_eq_spec() ==> self.index() == index_of(self.store()@, self.view_key())
    }

    /// The stored value.
    pub fn get(self) -> (r: &'a V)
        requires
            self.valid(),
        ensures
            *r == self.store()@[self.index()].1,
            final(self.store())@ == self.store()@,
    {
        let pair = &self.vec[self.index];
        &pair.1
    }

    /// Mutable access to the stored value, for as long as the list is borrowed.
    pub fn get_mut(self) -> (r: &'a mut V)
        requires
            self.valid(),
        ensures
            *r == self.store()@[self.index()].1,
            final(self.store())@ == replace_value(self.store()@, self.index(), *final(r)),
            unique_store(self.store()@) ==> unique_store(final(self.store())@),
    {
        let ghost s = self.vec@;
        let pair = &mut self.vec[self.index];
        let r = &mut pair.1;
        proof {
            if unique_store(s) {
                lemma_same_keys_unique(s, replace_value(s, self.index as int, *final(r)));
            }
        }
        r
    }

    /// Removes the pair and returns it; the last pair takes its position.
    pub fn remove_entry(self) -> (r: (K, V))
        requires
            self.valid(),
        ensures
            r == self.store()@[self.index()],
            final(self.store())@ == swap_removed(self.store()@, self.index()),
            unique_store(self.store()@) ==> unique_store(final(self.store())@),
    {
        proof {
            if unique_store(self.store()@) {
                lemma_swap_removed_unique(self.store()@, self.index());
            }
        }
        self.vec.swap_remove(self.index)
    }

    /// Removes the pair and returns its value; the last pair takes its position.
    pub fn remove(self) -> (r: V)
        requires
            self.valid(),
        ensures
            r == self.store()@[self.index()].1,
            final(self.store())@ == swap_removed(self.store()@, self.index()),
            unique_store(self.store()@) ==> unique_store(final(self.store())@),
    {
        let (_key, value) = self.remove_entry();
        value
    }

    /// Replaces the stored value with `value` and returns the previous one.
    pub fn insert(&mut self, value: V) -> (r: V)
        requires
            old(self).valid(),
        ensures
            r == old(self).store()@[old(self).index()].1,
            final(self).store()@ == replace_value(old(self).store()@, old(self).index(), value),
            *final(final(self).store()) == *final(old(self).store()),
            final(self).index() == old(self).index(),
            final(self).view_key() == old(self).view_key(),
            final(self).valid(),
            unique_store(old(self).store()@) ==> unique_store(final(self).store()@),
    {
        let ghost s = self.vec@;
        let pair = &mut self.vec[self.index];
        let mut previous = value;
        std::mem::swap(&mut pair.1, &mut previous);
        proof {
            if unique_store(s) {
                lemma_same_keys_unique(s, self.vec@);
            }
            if K::obeys_eq_spec() {
                lemma_index_of(s, self.key);
                assert(crate::model::first_match(self.vec@, self.key, self.index as int));
                crate::model::lemma_first_match_is_index_of(self.vec@, self.key, self.index as int);
            }
        }
        previous
    }
}

impl<'a, K, V, A: Allocator> VacantEntry<'a, K, V, A> {
    /// The borrowed backing vector of the list.
    pub open(crate) spec fn store(self) -> &'a mut Vec<(K, V)> {
        self.vec
    }

    /// The key that the view was created for.
    pub open(crate) spec fn view_key(self) -> K {
        self.key
    }

    /// The key that the view was created for.
    pub fn key(&self) -> (r: &K)
        ensures
            *r == self.view_key(),
    {
        &self.key
    }
}

impl<'a, K: PartialEq, V, A: Allocator> VacantEntry<'a, K, V, A> {
    /// Where `==` is specified, no stored key equals the key of the view.
    pub open spec fn valid(self) -> bool {
        K::obeys_eq_spec() ==> !has_key(self.store()@, self.view_key())
    }

    /// Appends the key of the view with `value` and gives mutable access to
    /// the stored value.
    pub fn insert(self, value: V) -> (r: &'a mut V)
        requires
            self.valid(),
        ensures
            *r == value,
            final(self.store())@ == self.store()@.push((self.view_key(), *final(r))),
            unique_store(self.store()@) ==> unique_store(final(self.store())@),
    {
        let ghost s = self.vec@;
        let ghost k = self.key;
        self.vec.push((self.key, value));
        let last = self.vec.len() - 1;
        let pair = &mut self.vec[last];
        let r = &mut pair.1;
        proof {
            if unique_store(s) {
                lemma_push_unique(s, k, *final(r));
            }
        }
        r
    }
}

impl<'a, K, V, A: Allocator> Entry<'a, K, V, A> {
    /// The borrowed backing vector of the list.
    pub open spec fn store(self) -> &'a mut Vec<(K, V)> {
        match self {
            Entry::Occupied(o) => o.store(),
            Entry::Vacant(v) => v.store(),
        }
    }

    /// The key that the view was created for.
    pub open spec fn view_key(self) -> K {
        match self {
            Entry::Occupied(o) => o.view_key(),
            Entry::Vacant(v) => v.view_key(),
        }
    }

    /// The key that the view was created for.
    pub fn key(&self) -> (r: &K)
        ensures
            *r == self.view_key(),
    {
        match self {
            Entry::Occupied(occupied) => occupied.key(),
            Entry::Vacant(vacant) => vacant.key(),
        }
    }
}

impl<'a, K: PartialEq, V, A: Allocator> Entry<'a, K, V, A> {
    /// The view agrees with the list it borrows.
    pub open spec fn valid(self) -> bool {
        match self {
            Entry::Occupied(o) => o.valid(),
            Entry::Vacant(v) => v.valid(),
        }
    }

    /// Gives mutable access to the stored value, after storing `default` for
    /// the key if the slot was vacant.
    pub fn or_insert(self, default: V) -> (r: &'a mut V)
        requires
            self.valid(),
        ensures
            K::obeys_eq_spec() ==> *r == match lookup(self.store()@, self.view_key()) {
                Some(v) => v,
                None => default,
            },
            K::obeys_eq_spec() ==> final(self.store())@ == inserted(
                self.store()@,
                self.view_key(),
                *final(r),
            ),
            unique_store(self.store()@) ==> unique_store(final(self.store())@),
    {
        match self {
            Entry::Occupied(occupied) => occupied.get_mut(),
            Entry::Vacant(vacant) => {
                proof {
                    if K::obeys_eq_spec() {
                        lemma_index_of(vacant.store()@, vacant.view_key());
                    }
                }
                vacant.insert(default)
            },
        }
    }
}

} // verus!
