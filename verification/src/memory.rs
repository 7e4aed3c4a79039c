//! The read / read-write capability surface over arena memory, and the
//! single-owner chunked memory that actually owns bytes.

use crate::pos::{mem_range, slice_in_bounds, ArenaPos};
use vstd::prelude::*;
use vstd::slice::slice_subrange;

verus! {

/// Read access to raw byte ranges by position.  Every memory variant
/// (single-owner, frozen, hybrid) resolves positions against its chunked
/// byte contents, modelled as a sequence of byte sequences.
pub trait ArenaMemory: Sized {
    /// The chunked byte contents this memory resolves positions against.
    spec fn contents(&self) -> Seq<Seq<u8>>;

    /// Structural conditions the variant needs so that address arithmetic
    /// stays in machine range.
    spec fn wf(&self) -> bool;

    /// Resolves `pos` to an immutable view of exactly `len` bytes.
    fn raw_slice(&self, pos: ArenaPos, len: usize) -> (r: &[u8])
        requires
            self.wf(),
            slice_in_bounds(self.contents(), pos, len as int),
        ensures
            r@ == mem_range(self.contents(), pos, len as int),
    ;
}

/// Read-write access to raw byte ranges by position.  A variant with an
/// immutable region admits mutation only outside that region, which its
/// `writable` predicate carves out.
pub trait ArenaMemoryMut: ArenaMemory {
    /// Whether the region this position addresses may be mutated through
    /// this memory at all.
    spec fn writable(&self, pos: ArenaPos) -> bool;

    /// Resolves `pos` to a writable view of exactly `len` bytes.  Afterwards
    /// the memory holds whatever the caller left in that view; all other
    /// bytes and the chunk structure are untouched.
    fn raw_slice_mut(&mut self, pos: ArenaPos, len: usize) -> (r: &mut [u8])
        requires
            old(self).wf(),
            slice_in_bounds(old(self).contents(), pos, len as int),
            old(self).writable(pos),
        ensures
            r@ == mem_range(old(self).contents(), pos, len as int),
            final(self).contents() =~= old(self).contents().update(
                pos.chunk as int,
                old(self).contents()[pos.chunk as int].subrange(0, pos.pos as int) + final(r)@
                    + old(self).contents()[pos.chunk as int].subrange(
                    pos.pos + len,
                    old(self).contents()[pos.chunk as int].len() as int,
                ),
            ),
            final(self).wf(),
            forall|q: ArenaPos| #[trigger]
                final(self).writable(q) == old(self).writable(q),
    ;
}

/// A freshly allocated byte range, described by its position and length.
/// It carries no borrow of the memory: the bytes are read and written by
/// resolving `pos` against the arena that performed the allocation.
#[derive(Clone, Copy, PartialEq, Eq, Structural, Debug)]
pub struct ArenaSliceMut {
    pub pos: ArenaPos,
    pub len: usize,
}

impl ArenaSliceMut {
    /// The position of the range, for storing as a child reference.
    pub fn raw_pos(&self) -> (p: ArenaPos)
        ensures
            p == self.pos,
    {
        self.pos
    }

    /// The length of the range in bytes.
    pub fn raw_len(&self) -> (l: usize)
        ensures
            l == self.len,
    {
        self.len
    }
}

/// The concrete growable byte storage: an ordered list of chunks,
/// exclusively owned and mutated by one owner at a time.  Chunks are
/// append-only: they are never resized or removed once added, so positions
/// already handed out stay stable for the life of the memory.
pub struct STArenaMemory {
    pub chunks: Vec<Vec<u8>>,
}

impl STArenaMemory {
    /// Creates memory with no chunks.
    pub fn new() -> (r: Self)
        ensures
            r.contents() == Seq::<Seq<u8>>::empty(),
            r.chunks@ == Seq::<Vec<u8>>::empty(),
    {
        let r = STArenaMemory { chunks: Vec::new() };
        proof {
            assert(r.contents() =~= Seq::<Seq<u8>>::empty());
        }
        r
    }
}

impl ArenaMemory for STArenaMemory {
    open spec fn contents(&self) -> Seq<Seq<u8>> {
        Seq::new(self.chunks@.len(), |i: int| self.chunks@[i]@)
    }

    open spec fn wf(&self) -> bool {
        true
    }

    fn raw_slice(&self, pos: ArenaPos, len: usize) -> (r: &[u8]) {
        let chunk: &Vec<u8> = &self.chunks[pos.chunk()];
        let off = pos.pos();
        let clen: usize = chunk.len();
        proof {
            assert(self.contents()[pos.chunk as int] == self.chunks@[pos.chunk as int]@);
            assert(off + len <= clen);
        }
        slice_subrange(chunk.as_slice(), off, off + len)
    }
}

impl ArenaMemoryMut for STArenaMemory {
    /// Single-owner memory has no immutable region: every position in
    /// bounds may be mutated.
    open spec fn writable(&self, pos: ArenaPos) -> bool {
        true
    }

    fn raw_slice_mut(&mut self, pos: ArenaPos, len: usize) -> (r: &mut [u8]) {
        proof {
            assert(old(self).contents()[pos.chunk as int] == old(self).chunks@[pos.chunk as int]@);
        }
        let off = pos.pos();
        let chunk: &mut Vec<u8> = &mut self.chunks[pos.chunk()];
        let ghost c0: Seq<u8> = chunk@;
        let whole: &mut [u8] = chunk.as_mut_slice();
        let (prefix, tail) = whole.split_at_mut(off);
        let (mid, suffix) = tail.split_at_mut(len);
        proof {
            assert(prefix@ == c0.subrange(0, off as int));
            assert(mid@ =~= c0.subrange(off as int, off + len));
            assert(suffix@ =~= c0.subrange(off + len, c0.len() as int));
            assert(prefix@ + (final(mid)@ + suffix@) =~= (prefix@ + final(mid)@) + suffix@);
        }
        mid
    }
}

} // verus!
