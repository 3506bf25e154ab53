//! The allocation strategy parameter of an association list.
use vstd::prelude::*;

mod sealed;

use sealed::Sealed;

verus! {

/// A strategy for where the backing store of an association list obtains its
/// memory. The trait is sealed: [`DummyAllocator`] is its one implementation,
/// the default, which uses the global allocator.
pub trait Allocator: Sealed {

}

/// The default allocation strategy: the global allocator.
#[derive(Debug, Clone, Copy, Default)]
pub struct DummyAllocator;

impl Sealed for DummyAllocator {

}

impl Allocator for DummyAllocator {

}

} // verus!
