use vstd::prelude::*;

verus! {

/// Width and depth of a chunk in blocks.
pub const CHUNK_SIZE: i32 = 16;

/// Lowest block layer of the world.
pub const MIN_HEIGHT: i32 = -64;

/// One past the highest block layer of the world.
pub const WORLD_HEIGHT: i32 = 256;

/// Number of blocks in one chunk column: `CHUNK_SIZE * CHUNK_SIZE * (WORLD_HEIGHT - MIN_HEIGHT)`.
pub const CHUNK_VOLUME: usize = 81920;

} // verus!
