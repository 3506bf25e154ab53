//! The mathematical model of an association list: a sequence of key-value
//! pairs, searched from the front with the key type's `==`.
use vstd::laws_eq::{obeys_eq, obeys_eq_spec_properties};
use vstd::pervasive::cloned;
use vstd::prelude::*;
use vstd::std_specs::cmp::PartialEqSpec;

verus! {

/// Whether `a == b` holds for two keys, as the key type's `PartialEq` defines it.
pub open spec fn key_eq<K: PartialEq>(a: K, b: K) -> bool {
    a.eq_spec(&b)
}

/// Whether some pair of `s` has a key equal to `k`.
pub open spec fn has_key<K: PartialEq, V>(s: Seq<(K, V)>, k: K) -> bool {
    exists|i: int| 0 <= i < s.len() && #[trigger] key_eq(s[i].0, k)
}

/// Whether `i` is the first position of `s` whose key equals `k`.
pub open spec fn first_match<K: PartialEq, V>(s: Seq<(K, V)>, k: K, i: int) -> bool {
    &&& 0 <= i < s.len()
    &&& key_eq(s[i].0, k)
    &&& forall|j: int| 0 <= j < i ==> !#[trigger] key_eq(s[j].0, k)
}

/// The position that a scan from the front finds for `k`, or `-1` when no key equals `k`.
pub open spec fn index_of<K: PartialEq, V>(s: Seq<(K, V)>, k: K) -> int {
    if exists|i: int| first_match(s, k, i) {
        choose|i: int| first_match(s, k, i)
    } else {
        -1
    }
}

/// The value stored for `k`, if any.
pub open spec fn lookup<K: PartialEq, V>(s: Seq<(K, V)>, k: K) -> Option<V> {
    let i = index_of(s, k);
    if i >= 0 {
        Some(s[i].1)
    } else {
        None
    }
}

/// The pair stored for `k`, if any.
pub open spec fn lookup_pair<K: PartialEq, V>(s: Seq<(K, V)>, k: K) -> Option<(K, V)> {
    let i = index_of(s, k);
    if i >= 0 {
        Some(s[i])
    } else {
        None
    }
}

/// `s` with the value at position `i` replaced by `v`; the key stays.
pub open spec fn replace_value<K, V>(s: Seq<(K, V)>, i: int, v: V) -> Seq<(K, V)> {
    s.update(i, (s[i].0, v))
}

/// `s` after inserting `v` for `k`: the value of an equal key is replaced in
/// place, otherwise the pair is appended.
pub open spec fn inserted<K: PartialEq, V>(s: Seq<(K, V)>, k: K, v: V) -> Seq<(K, V)> {
    let i = index_of(s, k);
    if i >= 0 {
        replace_value(s, i, v)
    } else {
        s.push((k, v))
    }
}

/// `s` after removing position `i` by moving the last pair into its place.
pub open spec fn swap_removed<K, V>(s: Seq<(K, V)>, i: int) -> Seq<(K, V)> {
    s.update(i, s.last()).drop_last()
}

/// `s` after removing the pair whose key equals `k`, if there is one.
pub open spec fn removed<K: PartialEq, V>(s: Seq<(K, V)>, k: K) -> Seq<(K, V)> {
    let i = index_of(s, k);
    if i >= 0 {
        swap_removed(s, i)
    } else {
        s
    }
}

/// No two distinct positions of `s` hold equal keys.
pub open spec fn keys_unique<K: PartialEq, V>(s: Seq<(K, V)>) -> bool {
    forall|i: int, j: int|
        0 <= i < s.len() && 0 <= j < s.len() && i != j ==> !#[trigger] key_eq(s[i].0, s[j].0)
}

/// The invariant of an association list: where the key type's `==` is a
/// symmetric and transitive relation that the executable `==` follows, keys
/// are unique.
pub open spec fn unique_store<K: PartialEq, V>(s: Seq<(K, V)>) -> bool {
    obeys_eq::<K>() ==> keys_unique(s)
}

/// Whether `a` and `b` hold the same keys at the same positions.
pub open spec fn same_keys<K, V>(a: Seq<(K, V)>, b: Seq<(K, V)>) -> bool {
    &&& a.len() == b.len()
    &&& forall|i: int| 0 <= i < a.len() ==> #[trigger] a[i].0 == b[i].0
}

/// `s` after inserting the pairs of `p` one after another, from the front.
pub open spec fn inserted_all<K: PartialEq, V>(s: Seq<(K, V)>, p: Seq<(K, V)>) -> Seq<(K, V)>
    decreases p.len(),
{
    if p.len() == 0 {
        s
    } else {
        let q = p.drop_last();
        inserted(inserted_all(s, q), p.last().0, p.last().1)
    }
}

/// Whether `a` and `b` have the same length and `b` holds, for the key of
/// each pair of `a`, a value equal to that pair's value.
pub open spec fn same_entries<K: PartialEq, V: PartialEq>(a: Seq<(K, V)>, b: Seq<(K, V)>) -> bool {
    &&& a.len() == b.len()
    &&& forall|i: int|
        0 <= i < a.len() ==> match #[trigger] lookup(b, a[i].0) {
            Some(w) => w.eq_spec(&a[i].1),
            None => false,
        }
}

/// Whether `c` is, pair by pair, a clone of `p`.
pub open spec fn clones_of<K: Clone, V: Clone>(p: Seq<(K, V)>, c: Seq<(K, V)>) -> bool {
    &&& c.len() == p.len()
    &&& forall|i: int|
        0 <= i < c.len() ==> cloned(p[i].0, #[trigger] c[i].0) && cloned(p[i].1, c[i].1)
}

/// The stored keys, in order.
pub open spec fn keys_of<K, V>(s: Seq<(K, V)>) -> Seq<K> {
    s.map_values(|p: (K, V)| p.0)
}

/// The stored values, in order.
pub open spec fn values_of<K, V>(s: Seq<(K, V)>) -> Seq<V> {
    s.map_values(|p: (K, V)| p.1)
}

/// `index_of` names the first matching position, or is `-1` when none matches.
pub proof fn lemma_index_of<K: PartialEq, V>(s: Seq<(K, V)>, k: K)
    ensures
        has_key(s, k) <==> index_of(s, k) >= 0,
        has_key(s, k) ==> first_match(s, k, index_of(s, k)),
        !has_key(s, k) ==> index_of(s, k) == -1,
    decreases s.len(),
{
    if s.len() > 0 {
        let t = s.drop_last();
        lemma_index_of(t, k);
        if has_key(t, k) {
            let i = index_of(t, k);
            assert(first_match(s, k, i)) by {
                assert(t[i] == s[i]);
                assert forall|j: int| 0 <= j < i implies !#[trigger] key_eq(s[j].0, k) by {
                    assert(t[j] == s[j]);
                }
            }
        } else if key_eq(s.last().0, k) {
            assert(first_match(s, k, s.len() - 1)) by {
                assert forall|j: int| 0 <= j < s.len() - 1 implies !#[trigger] key_eq(s[j].0, k) by {
                    assert(t[j] == s[j]);
                }
            }
        } else {
            assert forall|i: int| 0 <= i < s.len() implies !#[trigger] key_eq(s[i].0, k) by {
                if i < s.len() - 1 {
                    assert(t[i] == s[i]);
                }
            }
        }
    }
    if exists|i: int| first_match(s, k, i) {
        let c = choose|i: int| first_match(s, k, i);
        assert(key_eq(s[c].0, k));
    }
}

/// A first match is the position that `index_of` names.
pub proof fn lemma_first_match_is_index_of<K: PartialEq, V>(s: Seq<(K, V)>, k: K, i: int)
    requires
        first_match(s, k, i),
    ensures
        index_of(s, k) == i,
{
    let c = choose|c: int| first_match(s, k, c);
    if c < i {
        assert(key_eq(s[c].0, k));
    } else if i < c {
        assert(key_eq(s[i].0, k));
    }
}

/// Where no key matches, `index_of` is `-1`.
pub proof fn lemma_no_match<K: PartialEq, V>(s: Seq<(K, V)>, k: K)
    requires
        forall|j: int| 0 <= j < s.len() ==> !#[trigger] key_eq(s[j].0, k),
    ensures
        index_of(s, k) == -1,
        !has_key(s, k),
{
    lemma_index_of(s, k);
}

/// Lists with the same keys at the same positions find every key at the same position.
pub proof fn lemma_same_keys_index_of<K: PartialEq, V>(a: Seq<(K, V)>, b: Seq<(K, V)>, k: K)
    requires
        same_keys(a, b),
    ensures
        index_of(a, k) == index_of(b, k),
        has_key(a, k) == has_key(b, k),
{
    lemma_index_of(a, k);
    lemma_index_of(b, k);
    if has_key(a, k) {
        let i = index_of(a, k);
        assert(first_match(b, k, i)) by {
            assert forall|j: int| 0 <= j < i implies !#[trigger] key_eq(b[j].0, k) by {
                assert(a[j].0 == b[j].0);
            }
            assert(a[i].0 == b[i].0);
        }
        lemma_first_match_is_index_of(b, k, i);
    } else {
        assert forall|j: int| 0 <= j < b.len() implies !#[trigger] key_eq(b[j].0, k) by {
            assert(a[j].0 == b[j].0);
            if key_eq(b[j].0, k) {
                assert(key_eq(a[j].0, k));
            }
        }
        lemma_no_match(b, k);
    }
}

/// Replacing values keeps the invariant.
pub proof fn lemma_same_keys_unique<K: PartialEq, V>(a: Seq<(K, V)>, b: Seq<(K, V)>)
    requires
        same_keys(a, b),
        unique_store(a),
    ensures
        unique_store(b),
{
    if obeys_eq::<K>() {
        assert forall|i: int, j: int|
            0 <= i < b.len() && 0 <= j < b.len() && i != j implies !#[trigger] key_eq(
            b[i].0,
            b[j].0,
        ) by {
            assert(a[i].0 == b[i].0);
            assert(a[j].0 == b[j].0);
        }
    }
}

/// Appending a pair whose key equals no stored key keeps the invariant.
pub proof fn lemma_push_unique<K: PartialEq, V>(s: Seq<(K, V)>, k: K, v: V)
    requires
        unique_store(s),
        K::obeys_eq_spec() ==> !has_key(s, k),
    ensures
        unique_store(s.push((k, v))),
{
    let t = s.push((k, v));
    if obeys_eq::<K>() {
        reveal(obeys_eq_spec_properties);
        assert forall|i: int, j: int|
            0 <= i < t.len() && 0 <= j < t.len() && i != j implies !#[trigger] key_eq(
            t[i].0,
            t[j].0,
        ) by {
            if i == s.len() {
                assert(t[j] == s[j]);
                if key_eq(t[i].0, t[j].0) {
                    assert(key_eq(s[j].0, k));
                }
            } else if j == s.len() {
                assert(t[i] == s[i]);
                if key_eq(t[i].0, t[j].0) {
                    assert(key_eq(s[i].0, k));
                }
            } else {
                assert(t[i] == s[i]);
                assert(t[j] == s[j]);
            }
        }
    }
}

/// Swap-removal keeps the invariant.
pub proof fn lemma_swap_removed_unique<K: PartialEq, V>(s: Seq<(K, V)>, i: int)
    requires
        unique_store(s),
        0 <= i < s.len(),
    ensures
        unique_store(swap_removed(s, i)),
        swap_removed(s, i).len() == s.len() - 1,
{
    let t = swap_removed(s, i);
    let last = s.len() - 1;
    if obeys_eq::<K>() {
        assert forall|a: int, b: int|
            0 <= a < t.len() && 0 <= b < t.len() && a != b implies !#[trigger] key_eq(
            t[a].0,
            t[b].0,
        ) by {
            let pa = if a == i {
                last
            } else {
                a
            };
            let pb = if b == i {
                last
            } else {
                b
            };
            assert(t[a] == s[pa]);
            assert(t[b] == s[pb]);
        }
    }
}

/// Inserting keeps the invariant.
pub proof fn lemma_inserted_unique<K: PartialEq, V>(s: Seq<(K, V)>, k: K, v: V)
    requires
        unique_store(s),
    ensures
        unique_store(inserted(s, k, v)),
{
    lemma_index_of(s, k);
    if index_of(s, k) >= 0 {
        lemma_same_keys_unique(s, inserted(s, k, v));
    } else {
        lemma_push_unique(s, k, v);
    }
}

/// Removing keeps the invariant.
pub proof fn lemma_removed_unique<K: PartialEq, V>(s: Seq<(K, V)>, k: K)
    requires
        unique_store(s),
    ensures
        unique_store(removed(s, k)),
{
    lemma_index_of(s, k);
    if index_of(s, k) >= 0 {
        lemma_swap_removed_unique(s, index_of(s, k));
    }
}

} // verus!
