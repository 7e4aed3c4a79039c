//! An in-memory arena that backs a trie structure with position-based
//! (non-pointer) addressing of node bytes.
//!
//! A mutable arena owns a growable list of byte chunks and an allocator that
//! hands out fresh, non-overlapping positions inside them.  A finished arena
//! can be frozen behind a reference-counted immutable handle and shared
//! cheaply across many readers.  A hybrid arena composes such a shared,
//! immutable base with a private mutable delta, so that a fork of the trie
//! can allocate new nodes without copying the base and without ever being
//! able to mutate it.

pub mod allocator;
pub mod frozen;
pub mod hybrid;
pub mod memory;
pub mod pos;
