//! Terrain heights and block classification from per-column noise samples.
//!
//! Noise values are carried in millionths: a sample `v` stands for
//! `v / 1_000_000`.

use vstd::prelude::*;
use vstd::arithmetic::div_mod::lemma_hoist_over_denominator;
use crate::block::BlockType;
use crate::chunk::{Chunk, decompose, x_of, y_of, z_of};
use crate::{CHUNK_WIDTH, CHUNK_HEIGHT, CHUNK_VOL, SEA_LEVEL};

verus! {

/// The fixed-point unit of a noise sample.
pub const NOISE_ONE: i64 = 1_000_000;

/// Offset, a multiple of `NOISE_ONE`, that makes every weighted octave sum
/// non-negative before it is divided.
const FLOOR_SHIFT: i64 = 100_000_000_000;

/// The noise samples that one column (x, z) of a chunk reads, in millionths.
#[derive(Clone, Copy, Debug, PartialEq, Eq, Structural)]
pub struct ColumnNoise {
    /// Terrain channel at frequency 0.001.
    pub terrain_coarse: i32,
    /// Terrain channel at frequency 0.01.
    pub terrain_mid: i32,
    /// Terrain channel at frequency 0.06.
    pub terrain_fine: i32,
    /// Terrain channel at frequency 0.05, for the cover height.
    pub terrain_cover: i32,
    /// Tree channel at frequency 0.1, for sparse desert flora.
    pub tree_sparse: i32,
    /// Tree channel at frequency 0.03, for forest canopy density.
    pub tree_dense: i32,
    /// Temperature channel at frequency 0.001.
    pub temperature: i32,
    /// Moisture channel at frequency 0.001.
    pub moisture: i32,
}

/// The samples of all columns of one chunk, column (x, z) at `x + z * CHUNK_WIDTH`.
pub struct ChunkNoise {
    pub columns: Vec<ColumnNoise>,
}

impl ChunkNoise {
    pub open spec fn wf(&self) -> bool {
        self.columns@.len() == CHUNK_WIDTH * CHUNK_WIDTH
    }

    /// The samples of the column that holds linear block index i.
    pub open spec fn column_of(&self, i: int) -> ColumnNoise {
        self.columns@[x_of(i) + z_of(i) * CHUNK_WIDTH]
    }
}

/// Height below which a column is stone: the octaves 0.001, 0.01 and 0.06
/// weighted 30, 10 and 4, plus 60, floored.
pub open spec fn stone_height(c: ColumnNoise) -> int {
    (30 * c.terrain_coarse + 10 * c.terrain_mid + 4 * c.terrain_fine) / (NOISE_ONE as int) + 60
}

/// Height up to which a column is covered: the octaves 0.001 and 0.01
/// weighted 30 and 10, the octave 0.05 weighted 2, plus 64, floored.
pub open spec fn cover_height(c: ColumnNoise) -> int {
    (30 * c.terrain_coarse + 10 * c.terrain_mid + 2 * c.terrain_cover) / (NOISE_ONE as int) + 64
}

/// Temperature of a column, in millionths: ten times the channel.
pub open spec fn temperature(c: ColumnNoise) -> int {
    10 * c.temperature
}

/// Moisture of a column, in millionths: ten times the channel.
pub open spec fn moisture(c: ColumnNoise) -> int {
    10 * c.moisture
}

/// Hot and dry: temperature above 0.7 and moisture below 0.4.
pub open spec fn is_desert(c: ColumnNoise) -> bool {
    temperature(c) > 700_000 && moisture(c) < 400_000
}

/// Where cacti grow instead of trees: temperature above 0.65 and moisture
/// below 0.4.
pub open spec fn is_cactus_climate(c: ColumnNoise) -> bool {
    temperature(c) > 650_000 && moisture(c) < 400_000
}

/// What the height pass puts at height y: bedrock at the floor, stone below
/// the stone height, and nothing (`None`) elsewhere.
pub open spec fn shape_block(c: ColumnNoise, y: int) -> Option<BlockType> {
    if y == 0 {
        Some(BlockType::BedRock)
    } else if y < stone_height(c) {
        Some(BlockType::Stone)
    } else {
        None
    }
}

/// What the cover pass puts at height y of a cell that the height pass left.
pub open spec fn cover_block(c: ColumnNoise, y: int) -> BlockType {
    if y <= cover_height(c) {
        if y >= SEA_LEVEL && is_desert(c) {
            BlockType::Sand
        } else if y == cover_height(c) && y >= SEA_LEVEL {
            BlockType::Grass
        } else {
            BlockType::Dirt
        }
    } else if y <= SEA_LEVEL {
        BlockType::Water
    } else {
        BlockType::Air
    }
}

/// The block that terrain generation puts at height y of a column, before
/// ore and structures.
pub open spec fn terrain_block(c: ColumnNoise, y: int) -> BlockType {
    match shape_block(c, y) {
        Some(b) => b,
        None => cover_block(c, y),
    }
}

/// Floor of `a / NOISE_ONE`.
fn floor_noise(a: i64) -> (r: i64)
    requires
        -FLOOR_SHIFT <= a <= FLOOR_SHIFT,
    ensures
        r == (a as int) / (NOISE_ONE as int),
{
    let shifted: u64 = (a + FLOOR_SHIFT) as u64;
    let q: u64 = shifted / (NOISE_ONE as u64);
    proof {
        lemma_hoist_over_denominator(a as int, 100_000, 1_000_000);
        assert(q as int == (a as int + FLOOR_SHIFT as int) / (NOISE_ONE as int));
    }
    q as i64 - 100_000
}

/// The stone height and the cover height of a column.
pub fn height_by_coords(c: &ColumnNoise) -> (r: (i64, i64))
    ensures
        r.0 == stone_height(*c),
        r.1 == cover_height(*c),
{
    let base: i64 = 30 * (c.terrain_coarse as i64) + 10 * (c.terrain_mid as i64);
    let stone = floor_noise(base + 4 * (c.terrain_fine as i64)) + 60;
    let cover = floor_noise(base + 2 * (c.terrain_cover as i64)) + 64;
    (stone, cover)
}

/// The temperature of a column, in millionths.
pub fn temperature_at(c: &ColumnNoise) -> (r: i64)
    ensures
        r == temperature(*c),
{
    10 * (c.temperature as i64)
}

/// The moisture of a column, in millionths.
pub fn humidity_at(c: &ColumnNoise) -> (r: i64)
    ensures
        r == moisture(*c),
{
    10 * (c.moisture as i64)
}

/// Whether a column is desert.
pub fn desert_at(c: &ColumnNoise) -> (r: bool)
    ensures
        r == is_desert(*c),
{
    temperature_at(c) > 700_000 && humidity_at(c) < 400_000
}

/// The samples of the column that holds linear block index i.
pub fn column_at(noise: &ChunkNoise, i: usize) -> (r: ColumnNoise)
    requires
        noise.wf(),
        i < CHUNK_VOL,
    ensures
        r == noise.column_of(i as int),
{
    let (x, _y, z) = decompose(i);
    noise.columns[x + z * CHUNK_WIDTH]
}

/// The cover block at height y of a column.
pub fn cover_block_at(c: &ColumnNoise, y: usize) -> (r: BlockType)
    requires
        y < CHUNK_HEIGHT,
    ensures
        r == cover_block(*c, y as int),
{
    let (_stone, cover) = height_by_coords(c);
    let yy = y as i64;
    if yy <= cover {
        if y >= SEA_LEVEL && desert_at(c) {
            BlockType::Sand
        } else if yy == cover && y >= SEA_LEVEL {
            BlockType::Grass
        } else {
            BlockType::Dirt
        }
    } else if y <= SEA_LEVEL {
        BlockType::Water
    } else {
        BlockType::Air
    }
}

/// The height pass: bedrock on the floor and stone below each column's stone
/// height; every other cell is left as it was.
pub fn generate_terrain_shape(noise: &ChunkNoise, blocks: &mut Chunk)
    requires
        noise.wf(),
        old(blocks).wf(),
    ensures
        final(blocks).wf(),
        forall|i: int|
            0 <= i < CHUNK_VOL ==> #[trigger] final(blocks)@[i] == match shape_block(
                noise.column_of(i),
                y_of(i),
            ) {
                Some(b) => b,
                None => old(blocks)@[i],
            },
{
    let ghost start = blocks@;
    let mut i: usize = 0;
    while i < CHUNK_VOL
        invariant
            noise.wf(),
            blocks.wf(),
            i <= CHUNK_VOL,
            forall|j: int|
                0 <= j < i ==> #[trigger] blocks@[j] == match shape_block(
                    noise.column_of(j),
                    y_of(j),
                ) {
                    Some(b) => b,
                    None => start[j],
                },
            forall|j: int| i <= j < CHUNK_VOL ==> #[trigger] blocks@[j] == start[j],
        decreases CHUNK_VOL - i,
    {
        let (_x, y, _z) = decompose(i);
        let c = column_at(noise, i);
        let (stone, _cover) = height_by_coords(&c);
        if y == 0 {
            blocks.set(i, BlockType::BedRock);
        } else if (y as i64) < stone {
            blocks.set(i, BlockType::Stone);
        }
        i = i + 1;
    }
}

/// The cover pass: every cell that the height pass left gets its cover block.
pub fn generate_terrain_cover(noise: &ChunkNoise, blocks: &mut Chunk)
    requires
        noise.wf(),
        old(blocks).wf(),
    ensures
        final(blocks).wf(),
        forall|i: int|
            0 <= i < CHUNK_VOL ==> #[trigger] final(blocks)@[i] == match shape_block(
                noise.column_of(i),
                y_of(i),
            ) {
                Some(_) => old(blocks)@[i],
                None => cover_block(noise.column_of(i), y_of(i)),
            },
{
    let ghost start = blocks@;
    let mut i: usize = 0;
    while i < CHUNK_VOL
        invariant
            noise.wf(),
            blocks.wf(),
            i <= CHUNK_VOL,
            forall|j: int|
                0 <= j < i ==> #[trigger] blocks@[j] == match shape_block(
                    noise.column_of(j),
                    y_of(j),
                ) {
                    Some(_) => start[j],
                    None => cover_block(noise.column_of(j), y_of(j)),
                },
            forall|j: int| i <= j < CHUNK_VOL ==> #[trigger] blocks@[j] == start[j],
        decreases CHUNK_VOL - i,
    {
        let (_x, y, _z) = decompose(i);
        let c = column_at(noise, i);
        let (stone, _cover) = height_by_coords(&c);
        if y != 0 && (y as i64) >= stone {
            let b = cover_block_at(&c, y);
            blocks.set(i, b);
        }
        i = i + 1;
    }
}

} // verus!
