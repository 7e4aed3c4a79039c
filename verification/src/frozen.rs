//! Frozen arenas: a finished single-owner memory wrapped behind a
//! reference-counted immutable handle, safe to share read-only across many
//! owners and threads.  No mutation path exists on these types at all; once
//! wrapped, the underlying bytes are never mutated again by anyone.

use crate::memory::{ArenaMemory, STArenaMemory};
use crate::pos::ArenaPos;
use std::sync::Arc;
use vstd::prelude::*;

verus! {

/// Relies on `Arc::clone`: returns a new reference-counted handle to the
/// very same shared value, in constant time and without copying it.
#[verifier::external_body]
fn clone_handle(m: &Arc<STArenaMemory>) -> (r: Arc<STArenaMemory>)
    ensures
        *r == **m,
{
    Arc::clone(m)
}

/// A reference-counted, read-only view over a single-owner memory.
pub struct FrozenArenaMemory {
    shared_memory: Arc<STArenaMemory>,
}

impl FrozenArenaMemory {
    /// Wraps a finished single-owner memory in a shared immutable handle.
    pub fn new(shared_memory: STArenaMemory) -> (r: Self)
        ensures
            r.contents() == shared_memory.contents(),
    {
        FrozenArenaMemory { shared_memory: Arc::new(shared_memory) }
    }

    /// The shared handle itself, for building further views (such as a
    /// hybrid arena) over the same immutable base.
    pub fn shared(&self) -> (r: &Arc<STArenaMemory>)
        ensures
            (**r).contents() == self.contents(),
    {
        &self.shared_memory
    }
}

impl Clone for FrozenArenaMemory {
    /// Cloning increments the reference count and yields a view with
    /// byte-identical contents; the bytes themselves are not copied.
    fn clone(&self) -> (r: Self)
        ensures
            r.contents() == self.contents(),
    {
        FrozenArenaMemory { shared_memory: clone_handle(&self.shared_memory) }
    }
}

impl ArenaMemory for FrozenArenaMemory {
    closed spec fn contents(&self) -> Seq<Seq<u8>> {
        (*self.shared_memory).contents()
    }

    open spec fn wf(&self) -> bool {
        true
    }

    fn raw_slice(&self, pos: ArenaPos, len: usize) -> (r: &[u8]) {
        (*self.shared_memory).raw_slice(pos, len)
    }
}

/// A read-only arena over frozen memory: it owns nothing mutable and can be
/// cloned cheaply to share the same finalized trie storage.
pub struct FrozenArena {
    memory: FrozenArenaMemory,
}

impl FrozenArena {
    /// The read-only memory of this arena, as a specification value.
    pub closed spec fn spec_memory(&self) -> FrozenArenaMemory {
        self.memory
    }

    /// Freezes a finished single-owner memory into a shareable arena.
    pub fn new(shared_memory: STArenaMemory) -> (r: Self)
        ensures
            r.spec_memory().contents() == shared_memory.contents(),
    {
        FrozenArena { memory: FrozenArenaMemory::new(shared_memory) }
    }

    /// Read access to the arena's memory.
    pub fn memory(&self) -> (r: &FrozenArenaMemory)
        ensures
            *r == self.spec_memory(),
    {
        &self.memory
    }
}

impl Clone for FrozenArena {
    /// Cloning shares the same frozen memory: reads through the clone are
    /// byte-identical to reads through the original.
    fn clone(&self) -> (r: Self)
        ensures
            r.spec_memory().contents() == self.spec_memory().contents(),
    {
        FrozenArena { memory: self.memory.clone() }
    }
}

} // verus!
