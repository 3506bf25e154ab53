//! Keeps [`Allocator`](crate::Allocator) from being implemented outside this crate.
use vstd::prelude::*;

verus! {

/// A public trait under a private path, so that only this crate can implement
/// [`Allocator`](crate::Allocator).
pub trait Sealed {

}

} // verus!
