use mem_arena::allocator::{Allocator, CHUNK_SIZE};
use mem_arena::frozen::FrozenArena;
use mem_arena::hybrid::{ArenaError, HybridArena};
use mem_arena::memory::{ArenaMemory, ArenaMemoryMut, STArenaMemory};
use mem_arena::pos::ArenaPos;
use std::sync::Arc;

fn ranges_overlap(a: ArenaPos, alen: usize, b: ArenaPos, blen: usize) -> bool {
    a.chunk == b.chunk && (a.pos as usize) < b.pos as usize + blen && (b.pos as usize) < a.pos as usize + alen
}

#[test]
fn test_hybrid_arena() {
    let size = 50;
    let pos1 = ArenaPos { chunk: 1, pos: 25 };

    // Create and populate shared memory with 2 chunks
    let mut shared_memory = STArenaMemory::new();
    shared_memory.chunks.push(vec![0; 1000]);
    shared_memory.chunks.push(vec![0; 1000]);
    for i in 0..size {
        shared_memory.chunks[pos1.chunk()][pos1.pos() + i] = (100 + i) as u8;
    }

    // Create and populate hybrid arena
    let mut hybrid_arena = HybridArena::new("hybrid".to_string(), Arc::new(shared_memory));
    let slice = hybrid_arena.allocate(size);
    let pos2 = slice.raw_pos();
    {
        let target = hybrid_arena.memory_mut().raw_slice_mut(pos2, size);
        for i in 0..size {
            target[i] = i as u8;
        }
    }

    // Verify pos2 allocated memory has chunk >= 2
    assert_eq!(pos2, ArenaPos { chunk: 2, pos: 0 });

    // Verify shared and owned memory written values
    for i in 0..size {
        let shared_mem_val = hybrid_arena.memory().raw_slice(pos1, size)[i];
        let owned_mem_val = hybrid_arena.memory().raw_slice(pos2, size)[i];

        assert_eq!(shared_mem_val, (100 + i) as u8);
        assert_eq!(owned_mem_val, i as u8);
    }
}

#[test]
fn test_hybrid_arena_rejects_mutation_of_shared_memory() {
    let mut shared_memory = STArenaMemory::new();
    shared_memory.chunks.push(vec![0; 1000]);
    shared_memory.chunks.push(vec![0; 1000]);

    let mut hybrid_arena = HybridArena::new("hybrid".to_string(), Arc::new(shared_memory));
    let pos = ArenaPos { chunk: 1, pos: 25 };
    let data = vec![7u8; 50];
    let r = hybrid_arena.memory_mut().try_write(pos, &data);
    assert_eq!(r, Err(ArenaError::IllegalMutation));

    // The base's bytes are unchanged by the refused mutation.
    let read_back = hybrid_arena.memory().raw_slice(pos, 50);
    assert!(read_back.iter().all(|b| *b == 0));
}

#[test]
fn test_hybrid_try_write_out_of_bounds() {
    let mut shared_memory = STArenaMemory::new();
    shared_memory.chunks.push(vec![0; 100]);

    let mut hybrid_arena = HybridArena::new("hybrid".to_string(), Arc::new(shared_memory));
    // chunk 1 lies past the base, but the delta holds no chunk yet.
    let pos = ArenaPos { chunk: 1, pos: 0 };
    let r = hybrid_arena.memory_mut().try_write(pos, &[1u8, 2u8]);
    assert_eq!(r, Err(ArenaError::OutOfBounds));
}

#[test]
fn test_hybrid_try_write_then_read() {
    let mut shared_memory = STArenaMemory::new();
    shared_memory.chunks.push(vec![0; 100]);

    let mut hybrid_arena = HybridArena::new("hybrid".to_string(), Arc::new(shared_memory));
    let slice = hybrid_arena.allocate(4);
    let pos = slice.raw_pos();
    assert_eq!(slice.raw_len(), 4);

    let r = hybrid_arena.memory_mut().try_write(pos, &[9u8, 8u8, 7u8, 6u8]);
    assert_eq!(r, Ok(()));
    assert_eq!(hybrid_arena.memory().raw_slice(pos, 4), &[9, 8, 7, 6]);
}

#[test]
fn test_single_owner_write_then_read_round_trip() {
    let mut m = STArenaMemory::new();
    m.chunks.push(vec![0u8; 16]);
    let p = ArenaPos { chunk: 0, pos: 3 };
    {
        let w = m.raw_slice_mut(p, 5);
        for i in 0..5 {
            w[i] = (10 + i) as u8;
        }
    }
    assert_eq!(m.raw_slice(p, 5), &[10, 11, 12, 13, 14]);
    // Bytes outside the written range are untouched.
    assert_eq!(m.raw_slice(ArenaPos { chunk: 0, pos: 0 }, 3), &[0, 0, 0]);
    assert_eq!(m.raw_slice(ArenaPos { chunk: 0, pos: 8 }, 8), &[0; 8]);
}

#[test]
fn test_allocations_never_overlap() {
    let mut a = Allocator::new("test".to_string());
    let mut m = STArenaMemory::new();
    let sizes: [usize; 5] = [100, 200, 1, 0, 77];
    let mut got: Vec<(ArenaPos, usize)> = Vec::new();
    for s in sizes {
        let p = a.allocate(&mut m, s);
        got.push((p, s));
    }
    for i in 0..got.len() {
        for j in 0..got.len() {
            if i != j {
                assert!(!ranges_overlap(got[i].0, got[i].1, got[j].0, got[j].1));
            }
        }
    }
}

#[test]
fn test_allocator_grows_chunks_on_demand() {
    let mut a = Allocator::new("grow".to_string());
    let mut m = STArenaMemory::new();
    let p1 = a.allocate(&mut m, CHUNK_SIZE - 1);
    assert_eq!(p1, ArenaPos { chunk: 0, pos: 0 });
    assert_eq!(m.chunks.len(), 1);
    // Does not fit in the tail chunk's single remaining byte.
    let p2 = a.allocate(&mut m, 2);
    assert_eq!(p2, ArenaPos { chunk: 1, pos: 0 });
    assert_eq!(m.chunks.len(), 2);
    // An oversized request gets a chunk of its own size.
    let p3 = a.allocate(&mut m, CHUNK_SIZE + 10);
    assert_eq!(p3, ArenaPos { chunk: 2, pos: 0 });
    assert_eq!(m.chunks.len(), 3);
    assert_eq!(m.chunks[2].len(), CHUNK_SIZE + 10);
    assert_eq!(a.name().as_str(), "grow");
}

#[test]
fn test_frozen_arena_clone_reads_identical() {
    let mut m = STArenaMemory::new();
    m.chunks.push((0u8..10).collect());
    let arena = FrozenArena::new(m);
    let twin = arena.clone();
    let p = ArenaPos { chunk: 0, pos: 2 };
    assert_eq!(arena.memory().raw_slice(p, 4), twin.memory().raw_slice(p, 4));
    assert_eq!(twin.memory().raw_slice(p, 4), &[2, 3, 4, 5]);
}

#[test]
fn test_frozen_memory_reads_what_was_written_before_freezing() {
    let mut m = STArenaMemory::new();
    m.chunks.push(vec![0u8; 8]);
    {
        let w = m.raw_slice_mut(ArenaPos { chunk: 0, pos: 4 }, 2);
        w[0] = 42;
        w[1] = 43;
    }
    let arena = FrozenArena::new(m);
    assert_eq!(arena.memory().raw_slice(ArenaPos { chunk: 0, pos: 4 }, 2), &[42, 43]);
}

#[test]
fn test_hybrid_reads_split_between_base_and_delta() {
    let mut shared_memory = STArenaMemory::new();
    shared_memory.chunks.push(vec![11u8; 10]);
    shared_memory.chunks.push(vec![22u8; 10]);
    let shared = Arc::new(shared_memory);

    let mut hybrid_arena = HybridArena::new("hybrid".to_string(), Arc::clone(&shared));
    let slice = hybrid_arena.allocate(10);
    let pos = slice.raw_pos();
    assert_eq!(pos.chunk(), 2);
    hybrid_arena.memory_mut().try_write(pos, &[33u8; 10]).unwrap();

    // Positions below the base's chunk count read exactly the base's bytes.
    for (chunk, val) in [(0u32, 11u8), (1u32, 22u8)] {
        let p = ArenaPos { chunk, pos: 0 };
        assert_eq!(hybrid_arena.memory().raw_slice(p, 10), shared.raw_slice(p, 10));
        assert!(hybrid_arena.memory().raw_slice(p, 10).iter().all(|b| *b == val));
    }
    // Positions at or past it read the delta.
    assert!(hybrid_arena.memory().raw_slice(pos, 10).iter().all(|b| *b == 33));
}

#[test]
fn test_fork_over_frozen_base() {
    let mut m = STArenaMemory::new();
    m.chunks.push(vec![200u8; 6]);
    let frozen = FrozenArena::new(m);

    // Two independent forks over the same frozen base.
    let mut fork_a = HybridArena::new("a".to_string(), Arc::clone(frozen.memory().shared()));
    let mut fork_b = HybridArena::new("b".to_string(), Arc::clone(frozen.memory().shared()));
    let pa = fork_a.allocate(3).raw_pos();
    let pb = fork_b.allocate(3).raw_pos();
    fork_a.memory_mut().try_write(pa, &[1, 2, 3]).unwrap();
    fork_b.memory_mut().try_write(pb, &[4, 5, 6]).unwrap();

    // Each fork sees the shared base and only its own delta.
    let base_pos = ArenaPos { chunk: 0, pos: 0 };
    assert_eq!(fork_a.memory().raw_slice(base_pos, 6), &[200; 6]);
    assert_eq!(fork_b.memory().raw_slice(base_pos, 6), &[200; 6]);
    assert_eq!(fork_a.memory().raw_slice(pa, 3), &[1, 2, 3]);
    assert_eq!(fork_b.memory().raw_slice(pb, 3), &[4, 5, 6]);
}

#[test]
fn test_hybrid_chunks_offset_is_base_chunk_count() {
    let mut shared_memory = STArenaMemory::new();
    shared_memory.chunks.push(vec![0u8; 10]);
    shared_memory.chunks.push(vec![0u8; 10]);
    let hybrid_arena = HybridArena::new("hybrid".to_string(), Arc::new(shared_memory));
    assert_eq!(hybrid_arena.memory().chunks_offset(), 2);
}
