//! Procedural voxel terrain: chunk generation, structure placement across
//! chunk borders, a face-culling mesher with ambient occlusion, and the
//! throttled queue that streams chunks in and out around a viewer.

use vstd::prelude::*;

pub mod block;
pub mod chunk;
pub mod terrain;
pub mod ore;
pub mod world;
pub mod structures;
pub mod generation;
pub mod mesh;
pub mod stream;
pub mod laws;
mod outside;

verus! {

/// Width of a chunk along x and z, in blocks.
pub const CHUNK_WIDTH: usize = 8;

/// Height of a chunk along y, in blocks.
pub const CHUNK_HEIGHT: usize = 256;

/// Number of blocks held by one chunk.
pub const CHUNK_VOL: usize = CHUNK_WIDTH * CHUNK_WIDTH * CHUNK_HEIGHT;

/// Radius, in chunks, of the square ring kept loaded around the viewer.
pub const RENDER_DISTANCE: i32 = 24;

/// Highest y filled with water where the terrain stays below it.
pub const SEA_LEVEL: usize = 62;

} // verus!
