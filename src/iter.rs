//! Sequential access to the pairs, keys and values of an association list.
//!
//! Each iterator offers a `next` method and states, through `remaining`, the
//! items it has yet to hand out.
use std::marker::PhantomData;
use vstd::prelude::*;

use crate::allocator::Allocator;
use crate::model::{keys_of, values_of};

verus! {

/// The pairs of `s` from position `n` on.
pub open spec fn rest_from<T>(s: Seq<T>, n: int) -> Seq<T> {
    if 0 <= n <= s.len() {
        s.skip(n)
    } else {
        Seq::empty()
    }
}

/// A vector holding `s` in reverse order.
pub(crate) fn reversed<T>(v: Vec<T>) -> (r: Vec<T>)
    ensures
        r@ == v@.reverse(),
{
    let ghost s = v@;
    let mut v = v;
    let mut r: Vec<T> = Vec::new();
    while v.len() > 0
        invariant
            s == v@ + r@.reverse(),
        decreases v@.len(),
    {
        let ghost before_v = v@;
        let ghost before_r = r@;
        let x = v.pop().unwrap();
        r.push(x);
        proof {
            assert(r@.reverse() == seq![x] + before_r.reverse()) by {
                assert(r@.reverse() =~= seq![x] + before_r.reverse());
            }
            assert(before_v == v@.push(x));
            assert(s =~= v@ + r@.reverse());
        }
    }
    proof {
        assert(v@ + r@.reverse() =~= r@.reverse());
        assert(r@.reverse().reverse() =~= r@);
    }
    r
}

/// Pops the last item of `v`, which is the first item of `v@.reverse()`.
fn pop_front_of_reversed<T>(v: &mut Vec<T>) -> (r: Option<T>)
    ensures
        old(v)@.len() == 0 ==> r is None && final(v)@ == old(v)@,
        old(v)@.len() > 0 ==> r == Some(old(v)@.reverse()[0]) && final(v)@.reverse()
            == old(v)@.reverse().drop_first(),
{
    let ghost s = v@;
    let r = v.pop();
    proof {
        if s.len() > 0 {
            assert(v@.reverse() =~= s.reverse().drop_first());
        }
    }
    r
}

/// The keys of an association list, in order, by reference.
pub struct Keys<'a, K, V> {
    pub(crate) pairs: &'a [(K, V)],
    pub(crate) pos: usize,
}

impl<'a, K, V> Keys<'a, K, V> {
    /// The keys yet to be handed out.
    pub open(crate) spec fn remaining(&self) -> Seq<K> {
        keys_of(rest_from(self.pairs@, self.pos as int))
    }

    /// Hands out the next key.
    pub fn next(&mut self) -> (r: Option<&'a K>)
        ensures
            old(self).remaining().len() == 0 ==> r is None,
            old(self).remaining().len() == 0 ==> final(self).remaining() == old(self).remaining(),
            old(self).remaining().len() > 0 ==> (r matches Some(k) && *k == old(self).remaining()[0]),
            old(self).remaining().len() > 0 ==> final(self).remaining() == old(
                self,
            ).remaining().drop_first(),
    {
        if self.pos < self.pairs.len() {
            let pairs: &'a [(K, V)] = self.pairs;
            let k = &pairs[self.pos].0;
            self.pos = self.pos + 1;
            proof {
                assert(rest_from(pairs@, self.pos as int) =~= rest_from(
                    pairs@,
                    self.pos - 1,
                ).drop_first());
            }
            Some(k)
        } else {
            None
        }
    }
}

/// The values of an association list, in order, by reference.
pub struct Values<'a, K, V> {
    pub(crate) pairs: &'a [(K, V)],
    pub(crate) pos: usize,
}

impl<'a, K, V> Values<'a, K, V> {
    /// The values yet to be handed out.
    pub open(crate) spec fn remaining(&self) -> Seq<V> {
        values_of(rest_from(self.pairs@, self.pos as int))
    }

    /// Hands out the next value.
    pub fn next(&mut self) -> (r: Option<&'a V>)
        ensures
            old(self).remaining().len() == 0 ==> r is None,
            old(self).remaining().len() == 0 ==> final(self).remaining() == old(self).remaining(),
            old(self).remaining().len() > 0 ==> (r matches Some(v) && *v == old(self).remaining()[0]),
            old(self).remaining().len() > 0 ==> final(self).remaining() == old(
                self,
            ).remaining().drop_first(),
    {
        if self.pos < self.pairs.len() {
            let pairs: &'a [(K, V)] = self.pairs;
            let v = &pairs[self.pos].1;
            self.pos = self.pos + 1;
            proof {
                assert(rest_from(pairs@, self.pos as int) =~= rest_from(
                    pairs@,
                    self.pos - 1,
                ).drop_first());
            }
            Some(v)
        } else {
            None
        }
    }
}

/// The keys of an association list, in order, by value.
pub struct IntoKeys<K, V, A: Allocator> {
    pub(crate) rev: Vec<(K, V)>,
    pub(crate) phantom: PhantomData<A>,
}

impl<K, V, A: Allocator> IntoKeys<K, V, A> {
    /// The keys yet to be handed out.
    pub open(crate) spec fn remaining(&self) -> Seq<K> {
        keys_of(self.rev@.reverse())
    }

    /// Hands out the next key.
    pub fn next(&mut self) -> (r: Option<K>)
        ensures
            old(self).remaining().len() == 0 ==> r is None,
            old(self).remaining().len() == 0 ==> final(self).remaining() == old(self).remaining(),
            old(self).remaining().len() > 0 ==> r == Some(old(self).remaining()[0]),
            old(self).remaining().len() > 0 ==> final(self).remaining() == old(
                self,
            ).remaining().drop_first(),
    {
        match pop_front_of_reversed(&mut self.rev) {
            Some((k, _v)) => {
                proof {
                    assert(keys_of(self.rev@.reverse()) =~= keys_of(
                        old(self).rev@.reverse(),
                    ).drop_first());
                }
                Some(k)
            },
            None => None,
        }
    }
}

/// The values of an association list, in order, by value.
pub struct IntoValues<K, V, A: Allocator> {
    pub(crate) rev: Vec<(K, V)>,
    pub(crate) phantom: PhantomData<A>,
}

impl<K, V, A: Allocator> IntoValues<K, V, A> {
    /// The values yet to be handed out.
    pub open(crate) spec fn remaining(&self) -> Seq<V> {
        values_of(self.rev@.reverse())
    }

    /// Hands out the next value.
    pub fn next(&mut self) -> (r: Option<V>)
        ensures
            old(self).remaining().len() == 0 ==> r is None,
            old(self).remaining().len() == 0 ==> final(self).remaining() == old(self).remaining(),
            old(self).remaining().len() > 0 ==> r == Some(old(self).remaining()[0]),
            old(self).remaining().len() > 0 ==> final(self).remaining() == old(
                self,
            ).remaining().drop_first(),
    {
        match pop_front_of_reversed(&mut self.rev) {
            Some((_k, v)) => {
                proof {
                    assert(values_of(self.rev@.reverse()) =~= values_of(
                        old(self).rev@.reverse(),
                    ).drop_first());
                }
                Some(v)
            },
            None => None,
        }
    }
}

/// The pairs taken out of an association list by
/// [`drain`](crate::AssocList::drain), in order, by value. The list is empty
/// from the moment the drain begins; pairs not handed out are dropped with
/// the drain.
pub struct Drain<'a, K, V, A: Allocator> {
    pub(crate) rev: Vec<(K, V)>,
    pub(crate) phantom: PhantomData<&'a mut A>,
}

impl<'a, K, V, A: Allocator> Drain<'a, K, V, A> {
    /// The pairs yet to be handed out.
    pub open(crate) spec fn remaining(&self) -> Seq<(K, V)> {
        self.rev@.reverse()
    }

    /// Hands out the next pair.
    pub fn next(&mut self) -> (r: Option<(K, V)>)
        ensures
            old(self).remaining().len() == 0 ==> r is None,
            old(self).remaining().len() == 0 ==> final(self).remaining() == old(self).remaining(),
            old(self).remaining().len() > 0 ==> r == Some(old(self).remaining()[0]),
            old(self).remaining().len() > 0 ==> final(self).remaining() == old(
                self,
            ).remaining().drop_first(),
    {
        pop_front_of_reversed(&mut self.rev)
    }
}

/// The pairs of an association list, in order, with mutable access to the
/// values.
pub struct IterMut<'a, K, V> {
    pub(crate) rest: &'a mut [(K, V)],
}

/// Splits the first item off the slice that `s` borrows. When there is one,
/// `s` is left borrowing nothing; otherwise `s` stays as it was.
fn split_first<'a, T>(s: &mut &'a mut [T]) -> (r: Option<(&'a mut T, &'a mut [T])>)
    ensures
        old(s)@.len() == 0 ==> r is None,
        old(s)@.len() == 0 ==> (*final(s))@ == (*old(s))@,
        old(s)@.len() == 0 ==> final(*old(s))@ == final(*final(s))@,
        old(s)@.len() > 0 ==> (r matches Some((x, t)) && *x == old(s)@[0] && t@ == old(
            s,
        )@.drop_first() && final(*old(s))@ == seq![*final(x)] + final(t)@),
{
    let mut taken: &'a mut [T] = &mut [];
    std::mem::swap(s, &mut taken);
    if taken.len() == 0 {
        *s = taken;
        return None;
    }
    let (first, tail) = taken.split_at_mut(1);
    Some((&mut first[0], tail))
}

impl<'a, K, V> IterMut<'a, K, V> {
    /// The borrowed pairs yet to be handed out.
    pub open(crate) spec fn rest(&self) -> &'a mut [(K, V)] {
        self.rest
    }

    /// Hands out the next pair, with mutable access to its value.
    pub fn next(&mut self) -> (r: Option<(&'a K, &'a mut V)>)
        ensures
            old(self).rest()@.len() == 0 ==> r is None && final(self).rest()@ == old(self).rest()@
                && final(old(self).rest())@ == final(final(self).rest())@,
            old(self).rest()@.len() > 0 ==> (r matches Some((k, v)) && *k == old(self).rest()@[0].0
                && *v == old(self).rest()@[0].1 && final(old(self).rest())@ == seq![(*k, *final(v))]
                + final(final(self).rest())@),
            old(self).rest()@.len() > 0 ==> final(self).rest()@ == old(self).rest()@.drop_first(),
    {
        match split_first(&mut self.rest) {
            Some((first, tail)) => {
                self.rest = tail;
                let (k, v) = first;
                Some((&*k, v))
            },
            None => None,
        }
    }
}

/// The values of an association list, in order, by mutable reference.
pub struct ValuesMut<'a, K, V> {
    pub(crate) rest: &'a mut [(K, V)],
}

impl<'a, K, V> ValuesMut<'a, K, V> {
    /// The borrowed pairs whose values are yet to be handed out.
    pub open(crate) spec fn rest(&self) -> &'a mut [(K, V)] {
        self.rest
    }

    /// Hands out mutable access to the next value.
    pub fn next(&mut self) -> (r: Option<&'a mut V>)
        ensures
            old(self).rest()@.len() == 0 ==> r is None && final(self).rest()@ == old(self).rest()@
                && final(old(self).rest())@ == final(final(self).rest())@,
            old(self).rest()@.len() > 0 ==> (r matches Some(v) && *v == old(self).rest()@[0].1
                && final(old(self).rest())@ == seq![(old(self).rest()@[0].0, *final(v))]
                + final(final(self).rest())@),
            old(self).rest()@.len() > 0 ==> final(self).rest()@ == old(self).rest()@.drop_first(),
    {
        match split_first(&mut self.rest) {
            Some((first, tail)) => {
                self.rest = tail;
                let (_k, v) = first;
                Some(v)
            },
            None => None,
        }
    }
}

} // verus!
