//! Properties of the operations, stated over the model that their contracts use.
use vstd::laws_eq::{obeys_eq, obeys_eq_spec_properties};
use vstd::prelude::*;
use vstd::relations::injective_on;
use vstd::set_lib::{lemma_int_range, lemma_map_size, lemma_subset_equality, set_int_range};
use vstd::std_specs::cmp::PartialEqSpec;

use crate::model::{
    first_match, has_key, index_of, inserted, inserted_all, key_eq, lemma_first_match_is_index_of,
    lemma_index_of, lemma_inserted_unique, lemma_no_match, lemma_removed_unique,
    lemma_same_keys_index_of, lookup, removed, replace_value, same_entries, same_keys, keys_unique,
    unique_store,
};

verus! {

/// No two stored keys become equal: inserting, removing, or writing any value
/// through an entry keeps the keys of a list unique.
pub proof fn law_keys_stay_unique<K: PartialEq, V>(s: Seq<(K, V)>, k: K, v: V)
    requires
        unique_store(s),
    ensures
        unique_store(inserted(s, k, v)),
        unique_store(removed(s, k)),
{
    lemma_inserted_unique(s, k, v);
    lemma_removed_unique(s, k);
}

/// After inserting `v` for a key that equals itself, looking the key up gives `v`.
pub proof fn law_get_after_insert<K: PartialEq, V>(s: Seq<(K, V)>, k: K, v: V)
    requires
        key_eq(k, k),
    ensures
        lookup(inserted(s, k, v), k) == Some(v),
{
    lemma_index_of(s, k);
    let t = inserted(s, k, v);
    if index_of(s, k) >= 0 {
        lemma_same_keys_index_of(s, t, k);
    } else {
        assert(first_match(t, k, s.len() as int)) by {
            assert forall|j: int| 0 <= j < s.len() implies !#[trigger] key_eq(t[j].0, k) by {
                assert(t[j] == s[j]);
                if key_eq(t[j].0, k) {
                    assert(has_key(s, k));
                }
            }
        }
        lemma_first_match_is_index_of(t, k, s.len() as int);
    }
}

/// Inserting a present key returns its previous value and keeps the length;
/// inserting an absent key returns nothing and adds exactly one pair.
pub proof fn law_insert_length<K: PartialEq, V>(s: Seq<(K, V)>, k: K, v: V)
    ensures
        has_key(s, k) ==> lookup(s, k) is Some && inserted(s, k, v).len() == s.len(),
        !has_key(s, k) ==> lookup(s, k) is None && inserted(s, k, v).len() == s.len() + 1,
{
    lemma_index_of(s, k);
}

/// Removing a present key returns its value and removes exactly one pair;
/// removing an absent key returns nothing and changes nothing.
pub proof fn law_remove_length<K: PartialEq, V>(s: Seq<(K, V)>, k: K)
    ensures
        has_key(s, k) ==> lookup(s, k) is Some && removed(s, k).len() == s.len() - 1,
        !has_key(s, k) ==> lookup(s, k) is None && removed(s, k) == s,
{
    lemma_index_of(s, k);
}

/// Taking the entry of `k` and calling `or_insert(d)`, without writing through
/// the returned reference, leaves the list as looking `k` up and, when that
/// finds nothing, inserting `d` for `k` does.
pub proof fn law_or_insert_is_lookup_then_insert<K: PartialEq, V>(s: Seq<(K, V)>, k: K, d: V)
    ensures
        inserted(
            s,
            k,
            match lookup(s, k) {
                Some(v) => v,
                None => d,
            },
        ) == (if lookup(s, k) is Some {
            s
        } else {
            inserted(s, k, d)
        }),
{
    lemma_index_of(s, k);
    if index_of(s, k) >= 0 {
        let i = index_of(s, k);
        assert(replace_value(s, i, s[i].1) =~= s);
    }
}

/// The value of the last pair of `p` whose key equals `k`.
pub open spec fn last_value<K: PartialEq, V>(p: Seq<(K, V)>, k: K) -> Option<V>
    decreases p.len(),
{
    if p.len() == 0 {
        None
    } else if key_eq(p.last().0, k) {
        Some(p.last().1)
    } else {
        last_value(p.drop_last(), k)
    }
}

/// Inserting `v` for `j` changes what a lookup of `k` finds only when `j`
/// equals `k`, and then to `v`.
pub proof fn law_lookup_after_insert<K: PartialEq, V>(s: Seq<(K, V)>, j: K, v: V, k: K)
    requires
        obeys_eq::<K>(),
    ensures
        lookup(inserted(s, j, v), k) == if key_eq(j, k) {
            Some(v)
        } else {
            lookup(s, k)
        },
{
    reveal(obeys_eq_spec_properties);
    let t = inserted(s, j, v);
    lemma_index_of(s, j);
    lemma_index_of(s, k);
    lemma_index_of(t, k);
    if index_of(s, j) >= 0 {
        let i = index_of(s, j);
        assert(same_keys(s, t));
        lemma_same_keys_index_of(s, t, k);
        if key_eq(j, k) {
            assert(key_eq(s[i].0, k));
            assert(first_match(s, k, i)) by {
                assert forall|m: int| 0 <= m < i implies !#[trigger] key_eq(s[m].0, k) by {
                    if key_eq(s[m].0, k) {
                        assert(key_eq(k, j));
                        assert(key_eq(s[m].0, j));
                    }
                }
            }
            lemma_first_match_is_index_of(s, k, i);
        } else if has_key(s, k) {
            let m = index_of(s, k);
            if m == i {
                assert(key_eq(s[i].0, k));
                assert(key_eq(j, s[i].0));
                assert(key_eq(j, k));
            }
        }
    } else {
        assert forall|m: int| 0 <= m < s.len() implies #[trigger] t[m] == s[m] by {}
        if has_key(s, k) {
            let m = index_of(s, k);
            assert(first_match(t, k, m)) by {
                assert(t[m] == s[m]);
                assert forall|q: int| 0 <= q < m implies !#[trigger] key_eq(t[q].0, k) by {
                    assert(t[q] == s[q]);
                }
            }
            lemma_first_match_is_index_of(t, k, m);
            if key_eq(j, k) {
                assert(key_eq(s[m].0, k));
                assert(key_eq(k, j));
                assert(key_eq(s[m].0, j));
                assert(has_key(s, j));
            }
        } else if key_eq(j, k) {
            assert(first_match(t, k, s.len() as int)) by {
                assert forall|q: int| 0 <= q < s.len() implies !#[trigger] key_eq(t[q].0, k) by {
                    assert(t[q] == s[q]);
                }
            }
            lemma_first_match_is_index_of(t, k, s.len() as int);
        } else {
            assert forall|q: int| 0 <= q < t.len() implies !#[trigger] key_eq(t[q].0, k) by {
                if q < s.len() {
                    assert(t[q] == s[q]);
                }
            }
            lemma_no_match(t, k);
        }
    }
}

/// Building a list from pairs gives every key the value of the last pair with
/// an equal key, and leaves no two keys equal.
pub proof fn law_build_from_pairs<K: PartialEq, V>(p: Seq<(K, V)>, k: K)
    requires
        obeys_eq::<K>(),
    ensures
        lookup(inserted_all(Seq::empty(), p), k) == last_value(p, k),
        unique_store(inserted_all(Seq::empty(), p)),
    decreases p.len(),
{
    if p.len() == 0 {
        lemma_no_match(Seq::<(K, V)>::empty(), k);
    } else {
        let q = p.drop_last();
        law_build_from_pairs(q, k);
        law_lookup_after_insert(inserted_all(Seq::empty(), q), p.last().0, p.last().1, k);
        lemma_inserted_unique(inserted_all(Seq::empty(), q), p.last().0, p.last().1);
    }
}

/// A key that no key equals, as a floating-point NaN, is appended by an
/// insertion and is never found afterwards: a lookup finds nothing and a
/// removal changes nothing.
pub proof fn law_unequal_key_never_found<K: PartialEq, V>(s: Seq<(K, V)>, k: K, v: V)
    requires
        forall|x: K| !#[trigger] key_eq(x, k),
    ensures
        inserted(s, k, v) == s.push((k, v)),
        lookup(inserted(s, k, v), k) is None,
        !has_key(inserted(s, k, v), k),
        removed(inserted(s, k, v), k) == inserted(s, k, v),
{
    lemma_no_match(s, k);
    lemma_no_match(s.push((k, v)), k);
}

/// Equality of lists needs a check in one direction only: where `==` on keys
/// and on values is symmetric and transitive, and the first list holds no two
/// equal keys, a second list of the same length that holds an equal value for
/// each key of the first is, in turn, matched by the first.
pub proof fn law_equality_is_symmetric<K: PartialEq, V: PartialEq>(a: Seq<(K, V)>, b: Seq<(K, V)>)
    requires
        obeys_eq::<K>(),
        obeys_eq::<V>(),
        keys_unique(a),
        same_entries(a, b),
    ensures
        same_entries(b, a),
{
    reveal(obeys_eq_spec_properties);
    let n = a.len() as int;
    let range = set_int_range(0, n);
    let f = |i: int| index_of(b, a[i].0);
    assert forall|i: int| 0 <= i < n implies 0 <= #[trigger] f(i) < n && key_eq(b[f(i)].0, a[i].0)
        && b[f(i)].1.eq_spec(&a[i].1) by {
        lemma_index_of(b, a[i].0);
        assert(lookup(b, a[i].0) is Some);
    }
    assert(injective_on(f, range)) by {
        assert forall|i: int, j: int| range.contains(i) && range.contains(j) && #[trigger] f(i)
            == #[trigger] f(j) implies i == j by {
            if i != j {
                assert(key_eq(b[f(i)].0, a[i].0));
                assert(key_eq(b[f(j)].0, a[j].0));
                assert(key_eq(a[i].0, b[f(i)].0));
                assert(key_eq(a[i].0, a[j].0));
            }
        }
    }
    lemma_int_range(0, n);
    let image = range.map(f);
    lemma_map_size(range, image, f);
    assert(image.subset_of(range)) by {
        assert forall|p: int| image.contains(p) implies range.contains(p) by {
            let i = choose|i: int| range.contains(i) && f(i) == p;
        }
    }
    lemma_subset_equality(image, range);
    assert forall|j: int| 0 <= j < b.len() implies match #[trigger] lookup(a, b[j].0) {
        Some(w) => w.eq_spec(&b[j].1),
        None => false,
    } by {
        assert(range.contains(j));
        assert(image.contains(j));
        let i = choose|i: int| range.contains(i) && f(i) == j;
        assert(key_eq(a[i].0, b[j].0));
        assert(first_match(a, b[j].0, i)) by {
            assert forall|m: int| 0 <= m < i implies !#[trigger] key_eq(a[m].0, b[j].0) by {
                if key_eq(a[m].0, b[j].0) {
                    assert(key_eq(b[j].0, a[i].0));
                    assert(key_eq(a[m].0, a[i].0));
                }
            }
        }
        lemma_first_match_is_index_of(a, b[j].0, i);
        assert(b[j].1.eq_spec(&a[i].1));
    }
}

} // verus!
