//! Gold ore veins: random walks through the stone of a chunk.

use vstd::prelude::*;
use rand::rngs::StdRng;
use crate::block::BlockType;
use crate::chunk::Chunk;
use crate::outside::draw_in;
use crate::{CHUNK_WIDTH, CHUNK_HEIGHT, CHUNK_VOL};

verus! {

/// An axis of the chunk.
#[derive(Clone, Copy, Debug, PartialEq, Eq, Structural)]
pub enum Axis {
    X,
    Y,
    Z,
}

/// One step of a vein's walk: one block along an axis, towards lower or
/// higher linear indices.
#[derive(Clone, Copy, Debug, PartialEq, Eq, Structural)]
pub struct OreStep {
    pub axis: Axis,
    pub backward: bool,
}

/// A vein: the linear index it starts at and the steps of its walk.
pub struct OreVein {
    pub start: usize,
    pub steps: Vec<OreStep>,
}

/// Largest number of veins a chunk draws, exclusive.
pub const MAX_VEINS: i64 = 50;

/// Largest number of steps of one walk.
pub const MAX_STEPS: usize = 6;

impl OreVein {
    /// A vein starts inside the chunk and walks one to six steps.
    pub open spec fn wf(&self) -> bool {
        &&& self.start < CHUNK_VOL
        &&& 1 <= self.steps@.len() <= MAX_STEPS
    }
}

/// How far one step moves the linear index. The walk is bounded on the
/// linear index alone, so a step may wrap into a neighbouring column.
pub open spec fn stride(a: Axis) -> int {
    match a {
        Axis::X => 1,
        Axis::Y => CHUNK_WIDTH as int,
        Axis::Z => (CHUNK_WIDTH * CHUNK_HEIGHT) as int,
    }
}

/// The signed move of one step.
pub open spec fn step_delta(s: OreStep) -> int {
    if s.backward {
        -stride(s.axis)
    } else {
        stride(s.axis)
    }
}

/// Where a walk stands after the given steps.
pub open spec fn walk_pos(start: int, steps: Seq<OreStep>) -> int
    decreases steps.len(),
{
    if steps.len() == 0 {
        start
    } else {
        walk_pos(start, steps.drop_last()) + step_delta(steps.last())
    }
}

/// Turns the cell at p into ore when p is a linear index of the chunk and
/// the cell is stone.
pub open spec fn mark_ore(b: Seq<BlockType>, p: int) -> Seq<BlockType> {
    if 0 <= p < CHUNK_VOL && b[p] == BlockType::Stone {
        b.update(p, BlockType::OreStoneGold)
    } else {
        b
    }
}

/// The chunk after a walk marked each cell it stepped onto.
pub open spec fn walk(b: Seq<BlockType>, start: int, steps: Seq<OreStep>) -> Seq<BlockType>
    decreases steps.len(),
{
    if steps.len() == 0 {
        b
    } else {
        mark_ore(walk(b, start, steps.drop_last()), walk_pos(start, steps))
    }
}

/// One vein: abandoned when its start is not stone; otherwise the start
/// becomes ore and the walk follows.
pub open spec fn apply_vein(b: Seq<BlockType>, start: int, steps: Seq<OreStep>) -> Seq<BlockType> {
    if b[start] == BlockType::Stone {
        walk(b.update(start, BlockType::OreStoneGold), start, steps)
    } else {
        b
    }
}

/// The veins, one after the other.
pub open spec fn apply_veins(b: Seq<BlockType>, veins: Seq<OreVein>) -> Seq<BlockType>
    decreases veins.len(),
{
    if veins.len() == 0 {
        b
    } else {
        let v = veins.last();
        apply_vein(apply_veins(b, veins.drop_last()), v.start as int, v.steps@)
    }
}

/// The signed move of one step.
fn delta(s: OreStep) -> (r: i64)
    ensures
        r == step_delta(s),
{
    let d: i64 = match s.axis {
        Axis::X => 1,
        Axis::Y => CHUNK_WIDTH as i64,
        Axis::Z => (CHUNK_WIDTH * CHUNK_HEIGHT) as i64,
    };
    if s.backward {
        -d
    } else {
        d
    }
}

/// Runs one vein on the chunk.
pub fn apply_ore_vein(blocks: &mut Chunk, vein: &OreVein)
    requires
        old(blocks).wf(),
        vein.wf(),
    ensures
        final(blocks).wf(),
        final(blocks)@ == apply_vein(old(blocks)@, vein.start as int, vein.steps@),
{
    if blocks.get(vein.start) != BlockType::Stone {
        return;
    }
    let ghost marked = blocks@.update(vein.start as int, BlockType::OreStoneGold);
    blocks.set(vein.start, BlockType::OreStoneGold);
    let mut pos: i64 = vein.start as i64;
    let mut j: usize = 0;
    while j < vein.steps.len()
        invariant
            vein.wf(),
            blocks.wf(),
            j <= vein.steps@.len(),
            pos == walk_pos(vein.start as int, vein.steps@.take(j as int)),
            -(j as int) * 2048 <= pos - vein.start <= (j as int) * 2048,
            blocks@ == walk(marked, vein.start as int, vein.steps@.take(j as int)),
        decreases vein.steps@.len() - j,
    {
        let s = vein.steps[j];
        let ghost before = vein.steps@.take(j as int);
        let ghost after = vein.steps@.take(j as int + 1);
        assert(after.drop_last() =~= before);
        assert(after.last() == s);
        pos = pos + delta(s);
        if 0 <= pos && pos < CHUNK_VOL as i64 {
            let p = pos as usize;
            if blocks.get(p) == BlockType::Stone {
                blocks.set(p, BlockType::OreStoneGold);
            }
        }
        j = j + 1;
    }
    assert(vein.steps@.take(j as int) =~= vein.steps@);
}

/// Runs the veins on the chunk, in order.
pub fn apply_ore_veins(blocks: &mut Chunk, veins: &Vec<OreVein>)
    requires
        old(blocks).wf(),
        forall|k: int| 0 <= k < veins@.len() ==> (#[trigger] veins@[k]).wf(),
    ensures
        final(blocks).wf(),
        final(blocks)@ == apply_veins(old(blocks)@, veins@),
{
    let ghost start = blocks@;
    let mut k: usize = 0;
    while k < veins.len()
        invariant
            blocks.wf(),
            k <= veins@.len(),
            forall|m: int| 0 <= m < veins@.len() ==> (#[trigger] veins@[m]).wf(),
            blocks@ == apply_veins(start, veins@.take(k as int)),
        decreases veins@.len() - k,
    {
        let ghost before = veins@.take(k as int);
        let ghost after = veins@.take(k as int + 1);
        assert(after.drop_last() =~= before);
        apply_ore_vein(blocks, &veins[k]);
        k = k + 1;
    }
    assert(veins@.take(k as int) =~= veins@);
}

/// Draws the veins of one chunk: fewer than fifty, each starting at a
/// uniformly drawn index and walking one to six steps, each step along a
/// uniformly drawn axis in a direction given by a fair coin.
pub fn draw_ore_veins(random: &mut StdRng) -> (r: Vec<OreVein>)
    ensures
        r@.len() < MAX_VEINS,
        forall|k: int| 0 <= k < r@.len() ==> (#[trigger] r@[k]).wf(),
{
    let fillings = draw_in(random, 0, MAX_VEINS);
    let mut veins: Vec<OreVein> = Vec::new();
    let mut n: i64 = 0;
    while n < fillings
        invariant
            0 <= n <= fillings < MAX_VEINS,
            veins@.len() == n,
            forall|k: int| 0 <= k < veins@.len() ==> (#[trigger] veins@[k]).wf(),
        decreases fillings - n,
    {
        let neighbours = draw_in(random, 1, MAX_STEPS as i64 + 1);
        let start = draw_in(random, 0, CHUNK_VOL as i64) as usize;
        let mut steps: Vec<OreStep> = Vec::new();
        let mut m: i64 = 0;
        while m < neighbours
            invariant
                0 <= m <= neighbours <= MAX_STEPS,
                steps@.len() == m,
            decreases neighbours - m,
        {
            let backward = draw_in(random, 0, 2) == 0;
            let a = draw_in(random, 0, 3);
            let axis = if a == 0 {
                Axis::X
            } else if a == 1 {
                Axis::Y
            } else {
                Axis::Z
            };
            steps.push(OreStep { axis, backward });
            m = m + 1;
        }
        veins.push(OreVein { start, steps });
        n = n + 1;
    }
    veins
}

/// Draws veins with the generator and runs them on the chunk.
pub fn generate_ore(random: &mut StdRng, blocks: &mut Chunk)
    requires
        old(blocks).wf(),
    ensures
        final(blocks).wf(),
        exists|veins: Seq<OreVein>|
            veins.len() < MAX_VEINS
            && (forall|k: int| 0 <= k < veins.len() ==> (#[trigger] veins[k]).wf())
            && final(blocks)@ == apply_veins(old(blocks)@, veins),
{
    let veins = draw_ore_veins(random);
    apply_ore_veins(blocks, &veins);
}

} // verus!
