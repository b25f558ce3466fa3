//! Trees and cacti placed on the terrain surface. A structure's writes that
//! fall outside the chunk go to the reserved blocks of the neighbouring
//! chunk that holds them; stored chunks are never written directly.

use vstd::prelude::*;
use crate::block::{BlockType, is_structure_block};
use crate::chunk::{Chunk, index_of, block_index};
use crate::world::{
    WorldMap, chunk_model, air_chunk, fits_i32, key_of, split_axis, lemma_model_insert,
};
use crate::{CHUNK_WIDTH, CHUNK_HEIGHT};

verus! {

broadcast use vstd::std_specs::hash::group_hash_axioms;

/// The kind of a structure.
#[derive(Clone, Copy, Debug, PartialEq, Eq, Structural)]
pub enum StructureKind {
    Tree,
    Cactus,
}

/// A structure standing on the surface block (x, y, z) of a chunk.
#[derive(Clone, Copy, Debug, PartialEq, Eq, Structural)]
pub struct Structure {
    pub x: usize,
    pub y: usize,
    pub z: usize,
    pub kind: StructureKind,
    pub height: usize,
}

/// Tallest trunk or column a structure may have.
pub const MAX_STRUCTURE_HEIGHT: usize = 16;

impl Structure {
    /// A structure stands inside its chunk and has a trunk of one to sixteen blocks.
    pub open spec fn wf(&self) -> bool {
        &&& self.x < CHUNK_WIDTH
        &&& self.y < CHUNK_HEIGHT
        &&& self.z < CHUNK_WIDTH
        &&& 1 <= self.height <= MAX_STRUCTURE_HEIGHT
    }
}

/// One block written by a structure, at a position local to the chunk that
/// places it; x and z may lie outside the chunk.
#[derive(Clone, Copy, Debug, PartialEq, Eq, Structural)]
pub struct BlockWrite {
    pub x: i64,
    pub y: i64,
    pub z: i64,
    pub block: BlockType,
}

/// The trunk or column: `height` blocks straight above the surface block.
pub open spec fn trunk_writes(s: Structure, b: BlockType) -> Seq<BlockWrite> {
    Seq::new(
        s.height as nat,
        |k: int| BlockWrite { x: s.x as i64, y: (s.y + 1 + k) as i64, z: s.z as i64, block: b },
    )
}

/// One square layer of leaves at height ly, `side` blocks wide and centred
/// on the trunk; `half` is `(side - 1) / 2` and `count` is `side * side`.
pub open spec fn leaf_layer(s: Structure, ly: int, half: int, side: int, count: nat) -> Seq<
    BlockWrite,
> {
    Seq::new(
        count,
        |i: int|
            BlockWrite {
                x: (s.x - half + i % side) as i64,
                y: ly as i64,
                z: (s.z - half + i / side) as i64,
                block: BlockType::Leaves,
            },
    )
}

/// The writes of a structure, in order: a cactus is a column of cactus
/// blocks; a tree is a wooden trunk capped by two 5x5 layers of leaves
/// around its top and a 3x3 layer above it.
pub open spec fn structure_writes(s: Structure) -> Seq<BlockWrite> {
    match s.kind {
        StructureKind::Cactus => trunk_writes(s, BlockType::Cactus),
        StructureKind::Tree => {
            let top = s.y + s.height;
            trunk_writes(s, BlockType::Wood) + leaf_layer(s, top - 1, 2, 5, 25) + leaf_layer(
                s,
                top as int,
                2,
                5,
                25,
            ) + leaf_layer(s, top + 1, 1, 3, 9)
        },
    }
}

/// What a placement works on: the chunk being generated and the reserved
/// blocks of the world.
pub type Placement = (Seq<BlockType>, Map<(i32, i32), Seq<BlockType>>);

/// One write seen from chunk c. Heights outside the chunk are dropped. A
/// write inside the chunk goes to its blocks; one outside goes to the
/// reserved blocks of the neighbouring chunk that holds it, created if
/// absent, whether or not that neighbour is stored. Only air cells are
/// written.
pub open spec fn put_block(st: Placement, c: (i32, i32), w: BlockWrite) -> Placement {
    let (blocks, reserved) = st;
    let wd = CHUNK_WIDTH as int;
    let cx = c.0 + (w.x as int) / wd;
    let cz = c.1 + (w.z as int) / wd;
    let i = index_of((w.x as int) % wd, w.y as int, (w.z as int) % wd);
    if w.y < 0 || w.y >= CHUNK_HEIGHT {
        st
    } else if cx == c.0 && cz == c.1 {
        if blocks[i] == BlockType::Air {
            (blocks.update(i, w.block), reserved)
        } else {
            st
        }
    } else if !fits_i32(cx, cz) {
        st
    } else {
        let t = (cx as i32, cz as i32);
        let r = if reserved.contains_key(t) {
            reserved[t]
        } else {
            air_chunk()
        };
        if r[i] == BlockType::Air {
            (blocks, reserved.insert(t, r.update(i, w.block)))
        } else {
            st
        }
    }
}

/// The writes, one after the other.
pub open spec fn put_all(st: Placement, c: (i32, i32), ws: Seq<BlockWrite>) -> Placement
    decreases ws.len(),
{
    if ws.len() == 0 {
        st
    } else {
        put_block(put_all(st, c, ws.drop_last()), c, ws.last())
    }
}

/// The structures, one after the other.
pub open spec fn place_all(st: Placement, c: (i32, i32), ss: Seq<Structure>) -> Placement
    decreases ss.len(),
{
    if ss.len() == 0 {
        st
    } else {
        put_all(place_all(st, c, ss.drop_last()), c, structure_writes(ss.last()))
    }
}

/// A write that stays near its chunk.
pub open spec fn near(w: BlockWrite) -> bool {
    &&& -1000 <= w.x <= 1000
    &&& -1000 <= w.z <= 1000
    &&& is_structure_block(w.block)
}

/// The writes of a structure.
pub fn structure_writes_of(s: &Structure) -> (r: Vec<BlockWrite>)
    requires
        s.wf(),
    ensures
        r@ == structure_writes(*s),
        forall|k: int| 0 <= k < r@.len() ==> near(#[trigger] r@[k]),
{
    let b = match s.kind {
        StructureKind::Cactus => BlockType::Cactus,
        StructureKind::Tree => BlockType::Wood,
    };
    let mut r: Vec<BlockWrite> = Vec::new();
    let mut k: usize = 0;
    while k < s.height
        invariant
            s.wf(),
            is_structure_block(b),
            k <= s.height,
            b == BlockType::Cactus <==> s.kind == StructureKind::Cactus,
            r@ =~= trunk_writes(*s, b).take(k as int),
            forall|j: int| 0 <= j < r@.len() ==> near(#[trigger] r@[j]),
        decreases s.height - k,
    {
        r.push(BlockWrite { x: s.x as i64, y: (s.y + 1 + k) as i64, z: s.z as i64, block: b });
        k = k + 1;
    }
    assert(trunk_writes(*s, b).take(k as int) =~= trunk_writes(*s, b));
    if s.kind == StructureKind::Cactus {
        return r;
    }
    let top: i64 = (s.y + s.height) as i64;
    push_leaf_layer(&mut r, s, top - 1, 2, 5, 25);
    push_leaf_layer(&mut r, s, top, 2, 5, 25);
    push_leaf_layer(&mut r, s, top + 1, 1, 3, 9);
    r
}

/// Appends one layer of leaves.
fn push_leaf_layer(r: &mut Vec<BlockWrite>, s: &Structure, ly: i64, half: i64, side: usize, count: usize)
    requires
        s.wf(),
        0 <= ly <= 1000,
        1 <= half <= 2,
        side == 2 * half + 1,
        count == side * side,
        forall|k: int| 0 <= k < old(r)@.len() ==> near(#[trigger] old(r)@[k]),
    ensures
        final(r)@ == old(r)@ + leaf_layer(*s, ly as int, half as int, side as int, count as nat),
        forall|k: int| 0 <= k < final(r)@.len() ==> near(#[trigger] final(r)@[k]),
{
    let ghost start = r@;
    let ghost layer = leaf_layer(*s, ly as int, half as int, side as int, count as nat);
    let mut i: usize = 0;
    while i < count
        invariant
            s.wf(),
            0 <= ly <= 1000,
            1 <= half <= 2,
            side == 2 * half + 1,
            count == side * side,
            i <= count,
            layer == leaf_layer(*s, ly as int, half as int, side as int, count as nat),
            start == old(r)@,
            r@ =~= start + layer.take(i as int),
            forall|k: int| 0 <= k < r@.len() ==> near(#[trigger] r@[k]),
        decreases count - i,
    {
        assert(i / side < side && i % side < side) by (nonlinear_arith)
            requires
                i < count,
                count == side * side,
                side > 0,
        ;
        let w = BlockWrite {
            x: s.x as i64 - half + (i % side) as i64,
            y: ly,
            z: s.z as i64 - half + (i / side) as i64,
            block: BlockType::Leaves,
        };
        assert(w == layer[i as int]);
        r.push(w);
        assert(layer.take(i as int + 1) =~= layer.take(i as int).push(w));
        i = i + 1;
    }
    assert(layer.take(i as int) =~= layer);
}

/// Places one write, as `put_block` describes.
pub fn put_block_at(blocks: &mut Chunk, world_map: &mut WorldMap, c: (i32, i32), w: BlockWrite)
    requires
        old(blocks).wf(),
        old(world_map).wf(),
        near(w),
    ensures
        final(blocks).wf(),
        final(world_map).wf(),
        (final(blocks)@, final(world_map).reserved_view()) == put_block(
            (old(blocks)@, old(world_map).reserved_view()),
            c,
            w,
        ),
        final(world_map).chunks == old(world_map).chunks,
        final(world_map).chunk_entities == old(world_map).chunk_entities,
        final(world_map).water_chunk_entities == old(world_map).water_chunk_entities,
        final(world_map).spawned == old(world_map).spawned,
{
    if w.y < 0 || w.y >= CHUNK_HEIGHT as i64 {
        return;
    }
    let (dx, lx) = split_axis(w.x);
    let (dz, lz) = split_axis(w.z);
    let i = block_index(lx, w.y as usize, lz);
    if dx == 0 && dz == 0 {
        if blocks.get(i) == BlockType::Air {
            blocks.set(i, w.block);
        }
        return;
    }
    let cx = c.0 as i64 + dx;
    let cz = c.1 as i64 + dz;
    if cx < i32::MIN as i64 || cx > i32::MAX as i64 || cz < i32::MIN as i64 || cz > i32::MAX as i64 {
        return;
    }
    let t = (cx as i32, cz as i32);
    let k = key_of(t);
    let ghost reserved0 = world_map.reserved_chunk_data@;
    let mut entry = match world_map.reserved_chunk_data.remove(&k) {
        Some(e) => e,
        None => Chunk::empty(),
    };
    proof {
        assert(entry@ =~= (if reserved0.contains_key(k) {
            reserved0[k]@
        } else {
            air_chunk()
        }));
    }
    let ghost before = entry@;
    if entry.get(i) == BlockType::Air {
        entry.set(i, w.block);
    }
    let ghost updated = entry;
    world_map.reserved_chunk_data.insert(k, entry);
    proof {
        lemma_model_insert(reserved0, t, updated);
        assert(reserved0.insert(k, updated) == world_map.reserved_chunk_data@);
        if before[i as int] != BlockType::Air {
            assert(reserved0.contains_key(k));
            assert(chunk_model(reserved0).insert(t, updated@) =~= chunk_model(reserved0));
        }
    }
}

/// Places the structures in order, as `place_all` describes.
pub fn place_structures(
    blocks: &mut Chunk,
    world_map: &mut WorldMap,
    c: (i32, i32),
    structures: &Vec<Structure>,
)
    requires
        old(blocks).wf(),
        old(world_map).wf(),
        forall|k: int| 0 <= k < structures@.len() ==> (#[trigger] structures@[k]).wf(),
    ensures
        final(blocks).wf(),
        final(world_map).wf(),
        (final(blocks)@, final(world_map).reserved_view()) == place_all(
            (old(blocks)@, old(world_map).reserved_view()),
            c,
            structures@,
        ),
        final(world_map).chunks == old(world_map).chunks,
        final(world_map).chunk_entities == old(world_map).chunk_entities,
        final(world_map).water_chunk_entities == old(world_map).water_chunk_entities,
        final(world_map).spawned == old(world_map).spawned,
{
    let ghost st0: Placement = (blocks@, world_map.reserved_view());
    let ghost entities = world_map.chunk_entities;
    let ghost water_entities = world_map.water_chunk_entities;
    let ghost spawned = world_map.spawned;
    let ghost chunks = world_map.chunks;
    let mut k: usize = 0;
    while k < structures.len()
        invariant
            blocks.wf(),
            world_map.wf(),
            k <= structures@.len(),
            forall|m: int| 0 <= m < structures@.len() ==> (#[trigger] structures@[m]).wf(),
            (blocks@, world_map.reserved_view()) == place_all(
                st0,
                c,
                structures@.take(k as int),
            ),
            world_map.chunk_entities == entities,
            world_map.water_chunk_entities == water_entities,
            world_map.spawned == spawned,
            world_map.chunks == chunks,
        decreases structures@.len() - k,
    {
        let writes = structure_writes_of(&structures[k]);
        let ghost base = (blocks@, world_map.reserved_view());
        let mut j: usize = 0;
        while j < writes.len()
            invariant
                blocks.wf(),
                world_map.wf(),
                j <= writes@.len(),
                forall|m: int| 0 <= m < writes@.len() ==> near(#[trigger] writes@[m]),
                (blocks@, world_map.reserved_view()) == put_all(
                    base,
                    c,
                    writes@.take(j as int),
                ),
                world_map.chunk_entities == entities,
                world_map.water_chunk_entities == water_entities,
                world_map.spawned == spawned,
                world_map.chunks == chunks,
            decreases writes@.len() - j,
        {
            assert(writes@.take(j as int + 1).drop_last() =~= writes@.take(j as int));
            put_block_at(blocks, world_map, c, writes[j]);
            j = j + 1;
        }
        assert(writes@.take(j as int) =~= writes@);
        assert(structures@.take(k as int + 1).drop_last() =~= structures@.take(k as int));
        k = k + 1;
    }
    assert(structures@.take(k as int) =~= structures@);
}

} // verus!
