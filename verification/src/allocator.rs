//! The allocator: per-owner bookkeeping that hands out fresh,
//! non-overlapping byte ranges inside a single-owner memory, growing its
//! chunk list as needed.

use crate::memory::{ArenaMemory, STArenaMemory};
use crate::pos::{slice_in_bounds, ArenaPos};
use vstd::prelude::*;

verus! {

/// Capacity of a freshly appended chunk, unless a single request needs more.
pub const CHUNK_SIZE: usize = 262144;

/// Orders positions by address: chunk index first, then offset within it.
pub open spec fn pos_le(a: ArenaPos, b: ArenaPos) -> bool {
    a.chunk < b.chunk || (a.chunk == b.chunk && a.pos <= b.pos)
}

/// The byte ranges `[a, a + alen)` and `[b, b + blen)` share no byte.
pub open spec fn ranges_disjoint(a: ArenaPos, alen: int, b: ArenaPos, blen: int) -> bool {
    a.chunk != b.chunk || a.pos + alen <= b.pos || b.pos + blen <= a.pos
}

/// One allocation step, seen through the allocator's frontier: starting from
/// frontier `f`, the allocator handed out the range `[p, p + size)` and
/// moved its frontier to `f2`.  The range lies at or past the old frontier
/// and ends exactly at the new one, so the frontier separates everything
/// ever handed out from everything still free.
pub open spec fn alloc_step(f: ArenaPos, p: ArenaPos, size: int, f2: ArenaPos) -> bool {
    &&& pos_le(f, p)
    &&& f2.chunk == p.chunk
    &&& f2.pos == p.pos + size
}

/// An allocation step never moves the frontier backwards.
pub proof fn lemma_alloc_step_advances(f: ArenaPos, p: ArenaPos, size: int, f2: ArenaPos)
    requires
        alloc_step(f, p, size, f2),
        0 <= size,
    ensures
        pos_le(f, f2),
{
}

/// The frontier order is transitive.
pub proof fn lemma_pos_le_trans(a: ArenaPos, b: ArenaPos, c: ArenaPos)
    requires
        pos_le(a, b),
        pos_le(b, c),
    ensures
        pos_le(a, c),
{
}

/// No aliasing: two ranges handed out by the same allocator never overlap.
/// The first step ends at frontier `fb`, the second starts at or past some
/// frontier `fc` no earlier than `fb` — so with `lemma_alloc_step_advances`
/// and `lemma_pos_le_trans` this covers any two allocations of one
/// allocator, however many steps lie between them.
pub proof fn lemma_allocations_never_alias(
    fa: ArenaPos,
    p1: ArenaPos,
    s1: int,
    fb: ArenaPos,
    fc: ArenaPos,
    p2: ArenaPos,
    s2: int,
    fd: ArenaPos,
)
    requires
        alloc_step(fa, p1, s1, fb),
        alloc_step(fc, p2, s2, fd),
        pos_le(fb, fc),
        0 <= s1,
        0 <= s2,
    ensures
        ranges_disjoint(p1, s1, p2, s2),
{
}

/// Hands out fresh positions inside one single-owner memory.  Carries a
/// diagnostic name for the arena it serves.  `frontier` is the address of
/// the first byte never handed out: allocation requests are satisfied from
/// the tail chunk when it has room, otherwise from the start of a freshly
/// appended chunk.
pub struct Allocator {
    name: String,
    frontier: ArenaPos,
}

impl Allocator {
    /// The first byte address this allocator has never handed out.
    pub closed spec fn frontier(&self) -> ArenaPos {
        self.frontier
    }

    /// The diagnostic name, as a specification value.
    pub closed spec fn spec_name(&self) -> Seq<char> {
        self.name@
    }

    /// The allocator's bookkeeping agrees with the memory it serves: the
    /// frontier sits inside the tail chunk (or at the origin of an empty
    /// memory), and chunk count and tail length stay addressable.
    pub closed spec fn inv(&self, mem: Seq<Seq<u8>>) -> bool {
        &&& mem.len() <= u32::MAX
        &&& if mem.len() == 0 {
            self.frontier.chunk == 0 && self.frontier.pos == 0
        } else {
            &&& self.frontier.chunk as int == mem.len() - 1
            &&& self.frontier.pos <= mem[mem.len() - 1].len()
            &&& mem[mem.len() - 1].len() <= u32::MAX
        }
    }

    /// A fresh allocator for an empty memory, carrying a diagnostic name.
    pub fn new(name: String) -> (r: Self)
        ensures
            r.frontier() == (ArenaPos { chunk: 0, pos: 0 }),
            r.inv(Seq::<Seq<u8>>::empty()),
            r.spec_name() == name@,
    {
        Allocator { name, frontier: ArenaPos { chunk: 0, pos: 0 } }
    }

    /// The diagnostic name given at construction.
    pub fn name(&self) -> (r: &String)
        ensures
            r@ == self.spec_name(),
    {
        &self.name
    }

    /// Reserves `size` fresh bytes in `mem` and returns their position.
    ///
    /// The returned range lies at or past the old frontier and ends at the
    /// new one, so successive allocations never overlap; chunks already
    /// present keep their contents, and at most one chunk is appended.
    pub fn allocate(&mut self, mem: &mut STArenaMemory, size: usize) -> (p: ArenaPos)
        requires
            old(self).inv(old(mem).contents()),
            old(mem).contents().len() < u32::MAX,
            size <= u32::MAX,
        ensures
            final(self).inv(final(mem).contents()),
            alloc_step(old(self).frontier(), p, size as int, final(self).frontier()),
            slice_in_bounds(final(mem).contents(), p, size as int),
            final(mem).contents().len() >= old(mem).contents().len(),
            final(mem).contents().len() <= old(mem).contents().len() + 1,
            forall|i: int|
                0 <= i < old(mem).contents().len() ==> final(mem).contents()[i] == old(
                    mem,
                ).contents()[i],
    {
        let n = mem.chunks.len();
        if n > 0 {
            let tail_len: usize = mem.chunks[n - 1].len();
            let fpos = self.frontier.pos as usize;
            if size <= tail_len - fpos {
                let p = self.frontier;
                self.frontier = ArenaPos { chunk: p.chunk, pos: p.pos + (size as u32) };
                return p;
            }
        }
        let cap: usize = if size > CHUNK_SIZE {
            size
        } else {
            CHUNK_SIZE
        };
        let chunk: Vec<u8> = vec![0u8; cap];
        mem.chunks.push(chunk);
        let p = ArenaPos { chunk: n as u32, pos: 0 };
        self.frontier = ArenaPos { chunk: n as u32, pos: size as u32 };
        proof {
            assert(mem.contents()[n as int].len() == cap);
            assert(forall|i: int|
                0 <= i < old(mem).contents().len() ==> mem.contents()[i] == old(
                    mem,
                ).contents()[i]);
        }
        p
    }
}

} // verus!
