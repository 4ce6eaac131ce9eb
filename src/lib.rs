//! A typed arena: a container that hands out slots for values of one type
//! and releases them all together when it is dropped or emptied into a `Vec`.
//!
//! Elements live in chunks that are never resized: when the open chunk fills,
//! it is sealed and a new chunk of twice the capacity takes its place, so a
//! slot, once issued, keeps its place for as long as the arena lives.
pub mod arena;
pub mod chunks;
pub mod laws;

pub use arena::{Arena, ArenaPlace, INITIAL_SIZE};
pub use chunks::{ChunkList, ChunksView, Slot};
