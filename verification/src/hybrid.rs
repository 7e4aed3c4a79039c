//! Hybrid arenas: a reference-counted immutable base composed with a
//! private, mutable delta.  The base's chunk count `B` splits the address
//! space: positions with `chunk < B` resolve into the base, positions with
//! `chunk >= B` resolve into the delta at `chunk - B`.  New allocations only
//! ever land in the delta, and no operation can mutate the base.

use crate::allocator::{alloc_step, Allocator};
use crate::memory::{ArenaMemory, ArenaMemoryMut, ArenaSliceMut, STArenaMemory};
use crate::pos::{mem_range, mem_write, slice_in_bounds, ArenaPos};
use std::sync::Arc;
use vstd::prelude::*;
use vstd::slice::slice_index_get;

verus! {

/// Why a guarded mutation was refused.  Both cases are programmer errors,
/// reported deterministically and without touching any byte.
#[derive(Clone, Copy, PartialEq, Eq, Structural, Debug)]
pub enum ArenaError {
    /// The position resolves into the shared immutable base.
    IllegalMutation,
    /// The position does not resolve to that many bytes of the delta.
    OutOfBounds,
}

/// The position `p`, translated down into delta-local coordinates of a
/// memory whose base holds `base_chunks` chunks.
pub open spec fn delta_pos(p: ArenaPos, base_chunks: int) -> ArenaPos {
    ArenaPos { chunk: (p.chunk - base_chunks) as u32, pos: p.pos }
}

/// Hybrid split correctness: through a memory made of `base` followed by
/// `delta`, a position whose chunk index lies below the base's chunk count
/// designates exactly the bytes the base alone holds there, and any other
/// position designates the delta's bytes at the translated chunk index.
pub proof fn lemma_hybrid_split(base: Seq<Seq<u8>>, delta: Seq<Seq<u8>>, pos: ArenaPos, len: int)
    requires
        slice_in_bounds(base + delta, pos, len),
    ensures
        pos.chunk < base.len() ==> slice_in_bounds(base, pos, len) && mem_range(
            base + delta,
            pos,
            len,
        ) == mem_range(base, pos, len),
        pos.chunk >= base.len() ==> slice_in_bounds(delta, delta_pos(pos, base.len() as int), len)
            && mem_range(base + delta, pos, len) == mem_range(
            delta,
            delta_pos(pos, base.len() as int),
            len,
        ),
{
}

/// A shared immutable base plus a private mutable delta, resolved under the
/// address-space split at the base's chunk count.
pub struct HybridArenaMemory {
    owned_memory: STArenaMemory,
    shared_memory: Arc<STArenaMemory>,
}

impl HybridArenaMemory {
    /// The chunks of the shared immutable base.
    pub closed spec fn base(&self) -> Seq<Seq<u8>> {
        (*self.shared_memory).contents()
    }

    /// The chunks of the private mutable delta.
    pub closed spec fn delta(&self) -> Seq<Seq<u8>> {
        self.owned_memory.contents()
    }

    /// Opens a hybrid memory over a shared base, with an empty delta.
    pub fn new(shared_memory: Arc<STArenaMemory>) -> (r: Self)
        requires
            (*shared_memory).contents().len() <= u32::MAX,
        ensures
            r.base() == (*shared_memory).contents(),
            r.delta() == Seq::<Seq<u8>>::empty(),
            r.wf(),
    {
        HybridArenaMemory { owned_memory: STArenaMemory::new(), shared_memory }
    }

    /// The number of chunks of the base: the index where the delta's
    /// address space begins.
    pub fn chunks_offset(&self) -> (r: u32)
        requires
            self.wf(),
        ensures
            r == self.base().len(),
    {
        self.shared_memory.chunks.len() as u32
    }

    /// Checked mutation: writes all of `data` at `pos` if `pos` resolves
    /// into the delta and stays in bounds there; otherwise reports which
    /// guard refused it and leaves every byte unchanged.  The base is never
    /// written, whatever the outcome.
    pub fn try_write(&mut self, pos: ArenaPos, data: &[u8]) -> (r: Result<(), ArenaError>)
        requires
            old(self).wf(),
        ensures
            final(self).wf(),
            final(self).base() == old(self).base(),
            r is Ok <==> old(self).writable(pos) && slice_in_bounds(
                old(self).contents(),
                pos,
                data@.len() as int,
            ),
            r == Result::<(), ArenaError>::Err(ArenaError::IllegalMutation) <==> !old(
                self,
            ).writable(pos),
            r is Ok ==> final(self).contents() == mem_write(old(self).contents(), pos, data@),
            r is Err ==> final(self).contents() == old(self).contents(),
    {
        let offset = self.chunks_offset();
        if pos.chunk < offset {
            return Err(ArenaError::IllegalMutation);
        }
        let translated = ArenaPos { chunk: pos.chunk - offset, pos: pos.pos };
        let dlen = self.owned_memory.chunks.len();
        if translated.chunk() >= dlen {
            proof {
                assert(!slice_in_bounds(self.contents(), pos, data@.len() as int));
            }
            return Err(ArenaError::OutOfBounds);
        }
        let clen: usize = self.owned_memory.chunks[translated.chunk()].len();
        proof {
            assert(self.contents()[pos.chunk as int] == self.delta()[translated.chunk as int]);
        }
        if data.len() > clen || translated.pos() > clen - data.len() {
            return Err(ArenaError::OutOfBounds);
        }
        let ghost pre = self.contents();
        let target = self.owned_memory.raw_slice_mut(translated, data.len());
        copy_into(target, data);
        proof {
            assert(self.owned_memory.contents()[translated.chunk as int] =~= pre[pos.chunk as int].subrange(
                0,
                pos.pos as int,
            ) + data@ + pre[pos.chunk as int].subrange(
                pos.pos + data@.len(),
                pre[pos.chunk as int].len() as int,
            ));
            assert(self.contents() =~= mem_write(pre, pos, data@));
        }
        Ok(())
    }
}

/// Copies `src` wholesale into a writable view of the same length.
fn copy_into(dst: &mut [u8], src: &[u8])
    requires
        old(dst)@.len() == src@.len(),
    ensures
        final(dst)@ == src@,
{
    let mut i: usize = 0;
    while i < src.len()
        invariant
            i <= src@.len(),
            dst@.len() == src@.len(),
            forall|j: int| 0 <= j < i ==> dst@[j] == src@[j],
        decreases src@.len() - i,
    {
        let b: u8 = *slice_index_get(src, i);
        dst[i] = b;
        i += 1;
    }
    proof {
        assert(dst@ =~= src@);
    }
}

impl ArenaMemory for HybridArenaMemory {
    open spec fn contents(&self) -> Seq<Seq<u8>> {
        self.base() + self.delta()
    }

    open spec fn wf(&self) -> bool {
        self.base().len() + self.delta().len() <= u32::MAX
    }

    fn raw_slice(&self, pos: ArenaPos, len: usize) -> (r: &[u8]) {
        let offset = self.chunks_offset();
        if pos.chunk >= offset {
            let translated = ArenaPos { chunk: pos.chunk - offset, pos: pos.pos };
            proof {
                assert(self.contents()[pos.chunk as int] == self.delta()[translated.chunk as int]);
            }
            self.owned_memory.raw_slice(translated, len)
        } else {
            proof {
                assert(self.contents()[pos.chunk as int] == self.base()[pos.chunk as int]);
            }
            self.shared_memory.raw_slice(pos, len)
        }
    }
}

impl ArenaMemoryMut for HybridArenaMemory {
    /// Only positions that resolve into the delta may be mutated; the base
    /// is immutable through every access path.
    open spec fn writable(&self, pos: ArenaPos) -> bool {
        pos.chunk >= self.base().len()
    }

    /// Beyond the trait's contract: the base is untouched, whatever the
    /// caller writes through the returned view.
    fn raw_slice_mut(&mut self, pos: ArenaPos, len: usize) -> (r: &mut [u8])
        ensures
            final(self).base() == old(self).base(),
    {
        let offset = self.chunks_offset();
        let translated = ArenaPos { chunk: pos.chunk - offset, pos: pos.pos };
        proof {
            assert(old(self).contents()[pos.chunk as int] == old(self).delta()[translated.chunk as int]);
        }
        self.owned_memory.raw_slice_mut(translated, len)
    }
}

/// An arena that extends a shared immutable base with private allocations:
/// hybrid memory plus an allocator bound to the delta.
pub struct HybridArena {
    memory: HybridArenaMemory,
    allocator: Allocator,
}

impl HybridArena {
    /// The hybrid memory of this arena, as a specification value.
    pub closed spec fn spec_memory(&self) -> HybridArenaMemory {
        self.memory
    }

    /// The delta allocator of this arena, as a specification value.
    pub closed spec fn spec_allocator(&self) -> Allocator {
        self.allocator
    }

    /// The arena's bookkeeping agrees with its delta memory.
    pub open spec fn wf(&self) -> bool {
        &&& self.spec_memory().wf()
        &&& self.spec_allocator().inv(self.spec_memory().delta())
    }

    /// Opens a fork over a shared base: an empty delta and a fresh
    /// allocator carrying a diagnostic name.  The base is not copied.
    pub fn new(name: String, shared_memory: Arc<STArenaMemory>) -> (r: Self)
        requires
            (*shared_memory).contents().len() <= u32::MAX,
        ensures
            r.wf(),
            r.spec_memory().base() == (*shared_memory).contents(),
            r.spec_memory().delta() == Seq::<Seq<u8>>::empty(),
            r.spec_allocator().frontier() == (ArenaPos { chunk: 0, pos: 0 }),
            r.spec_allocator().spec_name() == name@,
    {
        HybridArena {
            memory: HybridArenaMemory::new(shared_memory),
            allocator: Allocator::new(name),
        }
    }

    /// Read access to the arena's memory.
    pub fn memory(&self) -> (r: &HybridArenaMemory)
        ensures
            *r == self.spec_memory(),
    {
        &self.memory
    }

    /// Read-write access to the arena's memory.  The memory's own guards
    /// still apply: nothing reachable from it can mutate the base.
    pub fn memory_mut(&mut self) -> (r: &mut HybridArenaMemory)
        ensures
            *r == old(self).spec_memory(),
            final(self).spec_memory() == *final(r),
            final(self).spec_allocator() == old(self).spec_allocator(),
    {
        &mut self.memory
    }

    /// Reserves `size` fresh bytes in the delta and returns their range.
    ///
    /// The returned position carries the delta-local chunk index plus the
    /// base's chunk count, so it is self-describing under the address-space
    /// split: it always resolves into the delta, never into the base, and
    /// successive allocations never overlap (their delta-local ranges obey
    /// the allocator's frontier discipline).
    pub fn allocate(&mut self, size: usize) -> (s: ArenaSliceMut)
        requires
            old(self).wf(),
            old(self).spec_memory().base().len() + old(self).spec_memory().delta().len()
                < u32::MAX,
            size <= u32::MAX,
        ensures
            final(self).wf(),
            s.len == size,
            s.pos.chunk >= final(self).spec_memory().base().len(),
            slice_in_bounds(final(self).spec_memory().contents(), s.pos, size as int),
            final(self).spec_memory().base() == old(self).spec_memory().base(),
            final(self).spec_memory().delta().len() >= old(self).spec_memory().delta().len(),
            forall|i: int|
                0 <= i < old(self).spec_memory().delta().len()
                    ==> final(self).spec_memory().delta()[i] == old(
                    self,
                ).spec_memory().delta()[i],
            alloc_step(
                old(self).spec_allocator().frontier(),
                delta_pos(s.pos, old(self).spec_memory().base().len() as int),
                size as int,
                final(self).spec_allocator().frontier(),
            ),
    {
        let offset = self.memory.chunks_offset();
        let p = self.allocator.allocate(&mut self.memory.owned_memory, size);
        let pos = ArenaPos { chunk: p.chunk + offset, pos: p.pos };
        proof {
            assert(self.memory.contents()[pos.chunk as int] == self.memory.delta()[p.chunk as int]);
            assert(delta_pos(pos, self.memory.base().len() as int) == p);
        }
        ArenaSliceMut { pos, len: size }
    }
}

} // verus!
