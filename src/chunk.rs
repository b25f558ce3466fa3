//! The dense voxel array of one chunk and its index linearization.

use vstd::prelude::*;
use vstd::arithmetic::div_mod::lemma_fundamental_div_mod;
use crate::block::BlockType;
use crate::{CHUNK_WIDTH, CHUNK_HEIGHT, CHUNK_VOL};

verus! {

/// Linear index of local coordinate (x, y, z).
pub open spec fn index_of(x: int, y: int, z: int) -> int {
    x + y * CHUNK_WIDTH + z * (CHUNK_WIDTH * CHUNK_HEIGHT)
}

/// Whether (x, y, z) lies inside one chunk.
pub open spec fn in_chunk(x: int, y: int, z: int) -> bool {
    0 <= x < CHUNK_WIDTH && 0 <= y < CHUNK_HEIGHT && 0 <= z < CHUNK_WIDTH
}

/// The local x of linear index i.
pub open spec fn x_of(i: int) -> int {
    (i % (CHUNK_WIDTH * CHUNK_HEIGHT)) % (CHUNK_WIDTH as int)
}

/// The local y of linear index i.
pub open spec fn y_of(i: int) -> int {
    (i % (CHUNK_WIDTH * CHUNK_HEIGHT)) / (CHUNK_WIDTH as int)
}

/// The local z of linear index i.
pub open spec fn z_of(i: int) -> int {
    i / (CHUNK_WIDTH * CHUNK_HEIGHT)
}

/// Splitting an index and joining the parts gives the index back.
pub proof fn lemma_index_split(i: int)
    requires
        0 <= i < CHUNK_VOL,
    ensures
        in_chunk(x_of(i), y_of(i), z_of(i)),
        index_of(x_of(i), y_of(i), z_of(i)) == i,
{
    assert(CHUNK_WIDTH * CHUNK_HEIGHT == 2048);
    let r = i % 2048;
    lemma_fundamental_div_mod(i, 2048);
    lemma_fundamental_div_mod(r, 8);
    assert(0 <= r < 2048);
    assert(0 <= r / 8 < 256) by (nonlinear_arith)
        requires
            0 <= r < 2048,
    ;
}

/// Joining in-bounds coordinates into an index and splitting it gives the
/// coordinates back.
pub proof fn lemma_index_round_trip(x: int, y: int, z: int)
    requires
        in_chunk(x, y, z),
    ensures
        0 <= index_of(x, y, z) < CHUNK_VOL,
        x_of(index_of(x, y, z)) == x,
        y_of(index_of(x, y, z)) == y,
        z_of(index_of(x, y, z)) == z,
{
    assert(CHUNK_WIDTH * CHUNK_HEIGHT == 2048);
    let i = x + y * 8 + z * 2048;
    assert(index_of(x, y, z) == i);
    let r = x + y * 8;
    assert(0 <= r < 2048);
    assert(i / 2048 == z && i % 2048 == r) by (nonlinear_arith)
        requires
            i == r + z * 2048,
            0 <= r < 2048,
    ;
    assert(r / 8 == y && r % 8 == x) by (nonlinear_arith)
        requires
            r == x + y * 8,
            0 <= x < 8,
    ;
    assert(0 <= i < 16384) by (nonlinear_arith)
        requires
            i == r + z * 2048,
            0 <= r < 2048,
            0 <= z < 8,
    ;
}

/// The linear index of an in-bounds local coordinate.
pub fn block_index(x: usize, y: usize, z: usize) -> (r: usize)
    requires
        in_chunk(x as int, y as int, z as int),
    ensures
        r as int == index_of(x as int, y as int, z as int),
        r < CHUNK_VOL,
{
    proof {
        lemma_index_round_trip(x as int, y as int, z as int);
    }
    x + y * CHUNK_WIDTH + z * (CHUNK_WIDTH * CHUNK_HEIGHT)
}

/// The local coordinate (x, y, z) of an index.
pub fn decompose(i: usize) -> (r: (usize, usize, usize))
    requires
        i < CHUNK_VOL,
    ensures
        r.0 as int == x_of(i as int),
        r.1 as int == y_of(i as int),
        r.2 as int == z_of(i as int),
        in_chunk(r.0 as int, r.1 as int, r.2 as int),
        index_of(r.0 as int, r.1 as int, r.2 as int) == i,
{
    proof {
        lemma_index_split(i as int);
    }
    let z = i / (CHUNK_WIDTH * CHUNK_HEIGHT);
    let rest = i % (CHUNK_WIDTH * CHUNK_HEIGHT);
    (rest % CHUNK_WIDTH, rest / CHUNK_WIDTH, z)
}

/// The voxels of one chunk, indexed by `index_of`.
pub struct Chunk {
    pub blocks: Vec<BlockType>,
}

impl View for Chunk {
    type V = Seq<BlockType>;

    open spec fn view(&self) -> Seq<BlockType> {
        self.blocks@
    }
}

impl Chunk {
    /// A chunk holds exactly one block per local coordinate.
    pub open spec fn wf(&self) -> bool {
        self.blocks@.len() == CHUNK_VOL
    }

    /// A chunk of air.
    pub fn empty() -> (r: Chunk)
        ensures
            r.wf(),
            forall|i: int| 0 <= i < CHUNK_VOL ==> r@[i] == BlockType::Air,
    {
        let mut blocks: Vec<BlockType> = Vec::new();
        let mut i: usize = 0;
        while i < CHUNK_VOL
            invariant
                i <= CHUNK_VOL,
                blocks@.len() == i,
                forall|j: int| 0 <= j < i ==> blocks@[j] == BlockType::Air,
            decreases CHUNK_VOL - i,
        {
            blocks.push(BlockType::Air);
            i = i + 1;
        }
        Chunk { blocks }
    }

    /// The block at a linear index.
    pub fn get(&self, i: usize) -> (r: BlockType)
        requires
            self.wf(),
            i < CHUNK_VOL,
        ensures
            r == self@[i as int],
    {
        self.blocks[i]
    }

    /// Replaces the block at a linear index.
    pub fn set(&mut self, i: usize, b: BlockType)
        requires
            old(self).wf(),
            i < CHUNK_VOL,
        ensures
            final(self).wf(),
            final(self)@ == old(self)@.update(i as int, b),
    {
        self.blocks.set(i, b);
    }
}

} // verus!
