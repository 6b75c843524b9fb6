//! The allocator handle: a capability token naming a memory arena.

use vstd::prelude::*;

verus! {

/// The arena identifier of the process-wide default ("system") allocator.
pub const SYSTEM_ALLOCATOR_ID: u64 = 0;

/// An opaque token identifying which memory arena the native engine should
/// use for any allocation it performs on the caller's behalf (enumeration
/// output arrays, string builders, status messages).
///
/// The token has no ownership relationship to the memory it names: whatever
/// the engine allocates through it is owned by the wrapper that receives it.
/// It is cheaply copyable and needs no teardown.
#[derive(Clone, Copy, PartialEq, Eq, Structural, Debug)]
pub struct IreeAllocator {
    pub id: u64,
}

impl IreeAllocator {
    /// The process-wide default allocator, usable by any component that must
    /// allocate scratch memory it does not otherwise own.
    pub fn system_allocator() -> (r: IreeAllocator)
        ensures
            r.id == SYSTEM_ALLOCATOR_ID,
    {
        IreeAllocator { id: SYSTEM_ALLOCATOR_ID }
    }

    /// An explicitly constructed allocator token for the arena named `id`.
    pub fn new(id: u64) -> (r: IreeAllocator)
        ensures
            r.id == id,
    {
        IreeAllocator { id }
    }
}

} // verus!
