//! Calls into `Vec` whose effect on the contents vstd does not state.
use std::collections::TryReserveError;
use vstd::prelude::*;

verus! {

/// Relies on `Vec::capacity`, which reports how many elements fit without
/// reallocating; that number depends on the allocator, so nothing is stated.
#[verifier::external_body]
pub(crate) fn capacity<T>(v: &Vec<T>) -> (r: usize) {
    v.capacity()
}

/// Relies on `Vec::reserve_exact`, which changes the capacity only.
#[verifier::external_body]
pub(crate) fn reserve_exact<T>(v: &mut Vec<T>, additional: usize)
    ensures
        final(v)@ == old(v)@,
{
    v.reserve_exact(additional)
}

/// Relies on `Vec::try_reserve_exact`, which changes the capacity only and
/// keeps the contents whether or not it succeeds.
#[verifier::external_body]
pub(crate) fn try_reserve_exact<T>(v: &mut Vec<T>, additional: usize) -> (r: Result<
    (),
    TryReserveError,
>)
    ensures
        final(v)@ == old(v)@,
{
    v.try_reserve_exact(additional)
}

/// Relies on `Vec::shrink_to`, which changes the capacity only.
#[verifier::external_body]
pub(crate) fn shrink_to<T>(v: &mut Vec<T>, min_capacity: usize)
    ensures
        final(v)@ == old(v)@,
{
    v.shrink_to(min_capacity)
}

/// Relies on `Vec::shrink_to_fit`, which changes the capacity only.
#[verifier::external_body]
pub(crate) fn shrink_to_fit<T>(v: &mut Vec<T>)
    ensures
        final(v)@ == old(v)@,
{
    v.shrink_to_fit()
}

/// Relies on `Vec::from` on an array, which moves the array's elements, in
/// order, into a new vector.
#[verifier::external_body]
pub(crate) fn vec_from_array<T, const N: usize>(a: [T; N]) -> (r: Vec<T>)
    ensures
        r@ == a@,
{
    Vec::from(a)
}

} // verus!
