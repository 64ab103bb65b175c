//! Synchronization primitives, by their driver handles.
use vstd::prelude::*;

verus! {

/// A device-side binary semaphore.
#[derive(Clone, Copy, Debug, PartialEq, Eq, Structural)]
pub struct Semaphore {
    pub raw: u64,
}

/// A host-waitable fence.
#[derive(Clone, Copy, Debug, PartialEq, Eq, Structural)]
pub struct Fence {
    pub raw: u64,
}

} // verus!
