//! The chunk store: generated chunks, blocks reserved for chunks that do not
//! exist yet, and the engine handles of spawned chunk meshes.

use vstd::prelude::*;
use std::collections::HashMap;
use noise::Perlin;
use vstd::arithmetic::div_mod::lemma_hoist_over_denominator;
use vstd::arithmetic::div_mod::lemma_fundamental_div_mod;
use crate::block::{BlockType, is_structure_block, transparent};
use crate::chunk::{Chunk, index_of, block_index};
use crate::outside::perlin_with_seed;
use crate::{CHUNK_WIDTH, CHUNK_HEIGHT, CHUNK_VOL};

verus! {

broadcast use vstd::std_specs::hash::group_hash_axioms;

/// The block that a lookup outside the loaded world sees: opaque, so chunk
/// edges show no holes before a neighbour is generated.
pub const FALLBACK_BLOCK: BlockType = BlockType::Dirt;

/// The map key of a chunk coordinate.
pub open spec fn chunk_key(c: (i32, i32)) -> u64 {
    ((c.0 as int + 0x8000_0000) * 0x1_0000_0000 + (c.1 as int + 0x8000_0000)) as u64
}

/// Distinct coordinates have distinct keys.
pub proof fn lemma_chunk_key_injective(a: (i32, i32), b: (i32, i32))
    requires
        chunk_key(a) == chunk_key(b),
    ensures
        a == b,
{
    let a0 = a.0 as int + 0x8000_0000;
    let a1 = a.1 as int + 0x8000_0000;
    let b0 = b.0 as int + 0x8000_0000;
    let b1 = b.1 as int + 0x8000_0000;
    assert(0 <= a0 * 0x1_0000_0000 + a1 < 0x1_0000_0000_0000_0000) by (nonlinear_arith)
        requires
            0 <= a0 < 0x1_0000_0000,
            0 <= a1 < 0x1_0000_0000,
    ;
    assert(0 <= b0 * 0x1_0000_0000 + b1 < 0x1_0000_0000_0000_0000) by (nonlinear_arith)
        requires
            0 <= b0 < 0x1_0000_0000,
            0 <= b1 < 0x1_0000_0000,
    ;
    assert(a0 == b0 && a1 == b1) by (nonlinear_arith)
        requires
            a0 * 0x1_0000_0000 + a1 == b0 * 0x1_0000_0000 + b1,
            0 <= a1 < 0x1_0000_0000,
            0 <= b1 < 0x1_0000_0000,
    ;
}

/// The map key of a chunk coordinate.
pub fn key_of(c: (i32, i32)) -> (r: u64)
    ensures
        r == chunk_key(c),
{
    let hi: u64 = (c.0 as i64 + 0x8000_0000) as u64;
    let lo: u64 = (c.1 as i64 + 0x8000_0000) as u64;
    assert(hi * 0x1_0000_0000 + lo < 0x1_0000_0000_0000_0000) by (nonlinear_arith)
        requires
            hi < 0x1_0000_0000,
            lo < 0x1_0000_0000,
    ;
    hi * 0x1_0000_0000 + lo
}

/// The chunks of a keyed store, by coordinate.
pub open spec fn chunk_model(m: Map<u64, Chunk>) -> Map<(i32, i32), Seq<BlockType>> {
    Map::new(|c: (i32, i32)| m.contains_key(chunk_key(c)), |c: (i32, i32)| m[chunk_key(c)]@)
}

pub(crate) proof fn lemma_model_insert(m: Map<u64, Chunk>, c: (i32, i32), v: Chunk)
    ensures
        chunk_model(m.insert(chunk_key(c), v)) == chunk_model(m).insert(c, v@),
{
    assert forall|d: (i32, i32)| #[trigger] chunk_key(d) == chunk_key(c) implies d == c by {
        lemma_chunk_key_injective(d, c);
    }
    assert(chunk_model(m.insert(chunk_key(c), v)) =~= chunk_model(m).insert(c, v@));
}

pub(crate) proof fn lemma_model_remove(m: Map<u64, Chunk>, c: (i32, i32))
    ensures
        chunk_model(m.remove(chunk_key(c))) == chunk_model(m).remove(c),
{
    assert forall|d: (i32, i32)| #[trigger] chunk_key(d) == chunk_key(c) implies d == c by {
        lemma_chunk_key_injective(d, c);
    }
    assert(chunk_model(m.remove(chunk_key(c))) =~= chunk_model(m).remove(c));
}

/// A chunk of air.
pub open spec fn air_chunk() -> Seq<BlockType> {
    Seq::new(CHUNK_VOL as nat, |i: int| BlockType::Air)
}

/// Every cell is air or part of a structure.
pub open spec fn only_structure_blocks(s: Seq<BlockType>) -> bool {
    forall|i: int| 0 <= i < s.len() ==> #[trigger] s[i] == BlockType::Air || is_structure_block(s[i])
}

/// Whether the coordinate of a chunk fits in `i32` on both axes.
pub open spec fn fits_i32(cx: int, cz: int) -> bool {
    i32::MIN <= cx <= i32::MAX && i32::MIN <= cz <= i32::MAX
}

/// The block at local position (x, y, z) seen from chunk c: x and z may lie
/// outside `[0, CHUNK_WIDTH)` and then name a block of a neighbouring chunk.
/// Heights outside the chunk, and chunks that are not loaded, give the
/// fallback block.
pub open spec fn lookup(
    chunks: Map<(i32, i32), Seq<BlockType>>,
    c: (i32, i32),
    x: int,
    y: int,
    z: int,
) -> BlockType {
    let w = CHUNK_WIDTH as int;
    let cx = c.0 + x / w;
    let cz = c.1 + z / w;
    if y < 0 || y >= CHUNK_HEIGHT {
        FALLBACK_BLOCK
    } else if fits_i32(cx, cz) && chunks.contains_key((cx as i32, cz as i32)) {
        chunks[(cx as i32, cz as i32)][index_of(x % w, y, z % w)]
    } else {
        FALLBACK_BLOCK
    }
}

/// Splits a coordinate into the chunk step and the local offset along one
/// horizontal axis.
pub(crate) fn split_axis(v: i64) -> (r: (i64, usize))
    requires
        -0x4000_0000_0000 <= v <= 0x4000_0000_0000,
    ensures
        r.0 == (v as int) / (CHUNK_WIDTH as int),
        r.1 == (v as int) % (CHUNK_WIDTH as int),
        r.1 < CHUNK_WIDTH,
{
    let shifted: u64 = (v + 0x4000_0000_0000) as u64;
    proof {
        lemma_hoist_over_denominator(v as int, 0x0800_0000_0000, 8);
        lemma_fundamental_div_mod(v as int, 8);
        lemma_fundamental_div_mod(shifted as int, 8);
    }
    ((shifted / 8) as i64 - 0x0800_0000_0000, (shifted % 8) as usize)
}

/// The world store.
pub struct WorldMap {
    /// Generated chunks, by `chunk_key`.
    pub chunks: HashMap<u64, Chunk>,
    /// Engine handle of each chunk's spawned solid mesh, by `chunk_key`.
    pub chunk_entities: HashMap<u64, u64>,
    /// Engine handle of each chunk's spawned water mesh, by `chunk_key`.
    pub water_chunk_entities: HashMap<u64, u64>,
    /// Blocks that structures of neighbouring chunks wrote into a chunk, by
    /// `chunk_key`; `Air` marks a cell with nothing reserved. An entry is
    /// merged into the chunk's air cells when the chunk is generated, or,
    /// for a chunk already stored, when its meshes are next built.
    pub reserved_chunk_data: HashMap<u64, Chunk>,
    /// The coordinates that have a solid mesh spawned, each once.
    pub spawned: Vec<(i32, i32)>,
}

impl WorldMap {
    /// The generated chunks, by coordinate.
    pub open spec fn chunks_view(&self) -> Map<(i32, i32), Seq<BlockType>> {
        chunk_model(self.chunks@)
    }

    /// The reserved blocks, by coordinate.
    pub open spec fn reserved_view(&self) -> Map<(i32, i32), Seq<BlockType>> {
        chunk_model(self.reserved_chunk_data@)
    }

    /// Every stored chunk and reserved entry is complete, reserved entries
    /// hold only air and structure blocks, and `spawned` lists each chunk
    /// with a solid mesh handle once.
    pub open spec fn wf(&self) -> bool {
        &&& forall|k: u64| #[trigger] self.chunks@.contains_key(k) ==> self.chunks@[k].wf()
        &&& forall|k: u64|
            #[trigger] self.reserved_chunk_data@.contains_key(k)
                ==> self.reserved_chunk_data@[k].wf()
        &&& forall|k: u64|
            #[trigger] self.reserved_chunk_data@.contains_key(k) ==> only_structure_blocks(
                self.reserved_chunk_data@[k]@,
            )
        &&& self.spawned@.no_duplicates()
        &&& forall|c: (i32, i32)|
            #[trigger] self.spawned@.contains(c) <==> self.chunk_entities@.contains_key(chunk_key(c))
    }

    /// An empty world.
    pub fn new() -> (r: WorldMap)
        ensures
            r.wf(),
            r.chunks_view() == Map::<(i32, i32), Seq<BlockType>>::empty(),
            r.reserved_view() == Map::<(i32, i32), Seq<BlockType>>::empty(),
            r.chunk_entities@ == Map::<u64, u64>::empty(),
            r.water_chunk_entities@ == Map::<u64, u64>::empty(),
            r.spawned@ == Seq::<(i32, i32)>::empty(),
    {
        let r = WorldMap {
            chunks: HashMap::new(),
            chunk_entities: HashMap::new(),
            water_chunk_entities: HashMap::new(),
            reserved_chunk_data: HashMap::new(),
            spawned: Vec::new(),
        };
        assert(r.chunks_view() =~= Map::<(i32, i32), Seq<BlockType>>::empty());
        assert(r.reserved_view() =~= Map::<(i32, i32), Seq<BlockType>>::empty());
        r
    }

    /// Whether the chunk at c was generated.
    pub fn has_chunk(&self, c: (i32, i32)) -> (r: bool)
        ensures
            r == self.chunks_view().contains_key(c),
    {
        self.chunks.contains_key(&key_of(c))
    }
}

/// The block at local position `block_position` seen from chunk
/// `chunk_position`, reaching into neighbouring chunks; heights outside the
/// chunk and chunks that are not loaded give `FALLBACK_BLOCK`.
pub fn block_at_position(
    world_map: &WorldMap,
    block_position: (i32, i32, i32),
    chunk_position: (i32, i32),
) -> (r: BlockType)
    requires
        world_map.wf(),
    ensures
        r == lookup(
            world_map.chunks_view(),
            chunk_position,
            block_position.0 as int,
            block_position.1 as int,
            block_position.2 as int,
        ),
{
    let (x, y, z) = block_position;
    if y < 0 || y >= CHUNK_HEIGHT as i32 {
        return FALLBACK_BLOCK;
    }
    let (dx, lx) = split_axis(x as i64);
    let (dz, lz) = split_axis(z as i64);
    let cx = chunk_position.0 as i64 + dx;
    let cz = chunk_position.1 as i64 + dz;
    if cx < i32::MIN as i64 || cx > i32::MAX as i64 || cz < i32::MIN as i64 || cz > i32::MAX as i64 {
        return FALLBACK_BLOCK;
    }
    let target = (cx as i32, cz as i32);
    match world_map.chunks.get(&key_of(target)) {
        Some(chunk) => {
            let i = block_index(lx, y as usize, lz);
            chunk.get(i)
        },
        None => FALLBACK_BLOCK,
    }
}

/// Lookups above or below the chunk, or into a neighbour that is not
/// loaded, see the opaque fallback block.
pub proof fn lemma_boundary_fallback(
    chunks: Map<(i32, i32), Seq<BlockType>>,
    c: (i32, i32),
    x: int,
    y: int,
    z: int,
)
    ensures
        (y < 0 || y >= CHUNK_HEIGHT) ==> lookup(chunks, c, x, y, z) == FALLBACK_BLOCK,
        (0 <= y < CHUNK_HEIGHT && x == -1 && 0 <= z < CHUNK_WIDTH && c.0 > i32::MIN
            && !chunks.contains_key(((c.0 - 1) as i32, c.1))) ==> lookup(chunks, c, x, y, z)
            == FALLBACK_BLOCK,
        !transparent(FALLBACK_BLOCK),
{
    if 0 <= y < CHUNK_HEIGHT && x == -1 && 0 <= z < CHUNK_WIDTH {
        assert(x / (CHUNK_WIDTH as int) == -1);
        assert(z / (CHUNK_WIDTH as int) == 0);
    }
}

/// The seed and the four noise sources derived from it.
pub struct SeededPerlin {
    pub seed: u32,
    pub terrain_seed: u32,
    pub tree_seed: u32,
    pub temperature_seed: u32,
    pub moisture_seed: u32,
    pub terrain_noise: Perlin,
    pub tree_noise: Perlin,
    pub temperature_noise: Perlin,
    pub moisture_noise: Perlin,
}

/// The seeds of the terrain, tree, temperature and moisture channels:
/// the seed, twice the seed, the seed plus 20 and the seed plus 30, each
/// wrapping at `u32`.
pub open spec fn channel_seeds_of(seed: u32) -> (u32, u32, u32, u32) {
    (
        seed,
        ((seed as int * 2) % 0x1_0000_0000) as u32,
        ((seed as int + 20) % 0x1_0000_0000) as u32,
        ((seed as int + 30) % 0x1_0000_0000) as u32,
    )
}

/// The seeds of the four noise channels.
pub fn channel_seeds(seed: u32) -> (r: (u32, u32, u32, u32))
    ensures
        r == channel_seeds_of(seed),
{
    (seed, seed.wrapping_mul(2), seed.wrapping_add(20), seed.wrapping_add(30))
}

impl SeededPerlin {
    /// The noise sources of a world seed, one per channel, each built from
    /// the channel's seed.
    pub fn new(seed: u32) -> (r: SeededPerlin)
        ensures
            r.seed == seed,
            (r.terrain_seed, r.tree_seed, r.temperature_seed, r.moisture_seed) == channel_seeds_of(seed),
    {
        let (terrain, tree, temperature, moisture) = channel_seeds(seed);
        SeededPerlin {
            seed,
            terrain_seed: terrain,
            tree_seed: tree,
            temperature_seed: temperature,
            moisture_seed: moisture,
            terrain_noise: perlin_with_seed(terrain),
            tree_noise: perlin_with_seed(tree),
            temperature_noise: perlin_with_seed(temperature),
            moisture_noise: perlin_with_seed(moisture),
        }
    }
}

} // verus!
