//! Positions: relative chunk-and-offset addresses into arena memory, and the
//! mathematical model of chunked byte storage that every arena variant is
//! specified against.

use vstd::prelude::*;

verus! {

/// A relative address into an arena's byte storage: a byte range starts at
/// offset `pos` inside chunk number `chunk` of some memory.  Positions are
/// plain copyable values; they carry no lifetime and are meaningful only
/// together with a memory instance that resolves them.
#[derive(Clone, Copy, PartialEq, Eq, Structural, Debug, Hash)]
pub struct ArenaPos {
    pub chunk: u32,
    pub pos: u32,
}

impl ArenaPos {
    /// The chunk index, widened for direct use as a list index.
    pub fn chunk(&self) -> (c: usize)
        ensures
            c == self.chunk as usize,
    {
        self.chunk as usize
    }

    /// The byte offset inside the chunk, widened for direct use as an index.
    pub fn pos(&self) -> (p: usize)
        ensures
            p == self.pos as usize,
    {
        self.pos as usize
    }
}

/// Chunked byte storage is modelled as a sequence of byte sequences: one
/// inner sequence per chunk, in chunk order.
///
/// `pos` resolves to a range of `len` bytes of `mem` exactly when the chunk
/// index is in range and the range lies inside that chunk.
pub open spec fn slice_in_bounds(mem: Seq<Seq<u8>>, pos: ArenaPos, len: int) -> bool {
    &&& (pos.chunk as int) < mem.len()
    &&& pos.pos + len <= mem[pos.chunk as int].len()
}

/// The `len` bytes that `pos` designates inside `mem`.
pub open spec fn mem_range(mem: Seq<Seq<u8>>, pos: ArenaPos, len: int) -> Seq<u8> {
    mem[pos.chunk as int].subrange(pos.pos as int, pos.pos + len)
}

/// `mem` with the range that `pos` designates overwritten by `data`; all
/// other bytes and the chunk structure are unchanged.
pub open spec fn mem_write(mem: Seq<Seq<u8>>, pos: ArenaPos, data: Seq<u8>) -> Seq<Seq<u8>> {
    let chunk = mem[pos.chunk as int];
    mem.update(
        pos.chunk as int,
        chunk.subrange(0, pos.pos as int) + data + chunk.subrange(
            pos.pos + data.len(),
            chunk.len() as int,
        ),
    )
}

/// Writing bytes at a valid position and immediately reading the same
/// position back yields exactly the written bytes.
pub proof fn lemma_write_then_read(mem: Seq<Seq<u8>>, pos: ArenaPos, data: Seq<u8>)
    requires
        slice_in_bounds(mem, pos, data.len() as int),
    ensures
        slice_in_bounds(mem_write(mem, pos, data), pos, data.len() as int),
        mem_range(mem_write(mem, pos, data), pos, data.len() as int) == data,
{
    let written = mem_write(mem, pos, data)[pos.chunk as int];
    assert(written.len() == mem[pos.chunk as int].len());
    assert(mem_range(mem_write(mem, pos, data), pos, data.len() as int) =~= data);
}

/// A write affects only the range it targets: any valid range that does not
/// overlap the written one reads the same bytes before and after the write.
pub proof fn lemma_write_elsewhere_unchanged(
    mem: Seq<Seq<u8>>,
    pos: ArenaPos,
    data: Seq<u8>,
    other: ArenaPos,
    len: int,
)
    requires
        slice_in_bounds(mem, pos, data.len() as int),
        slice_in_bounds(mem, other, len),
        0 <= len,
        other.chunk == pos.chunk ==> other.pos + len <= pos.pos || pos.pos + data.len()
            <= other.pos,
    ensures
        slice_in_bounds(mem_write(mem, pos, data), other, len),
        mem_range(mem_write(mem, pos, data), other, len) == mem_range(mem, other, len),
{
    let written = mem_write(mem, pos, data)[pos.chunk as int];
    assert(written.len() == mem[pos.chunk as int].len());
    assert(mem_range(mem_write(mem, pos, data), other, len) =~= mem_range(mem, other, len));
}

} // verus!
