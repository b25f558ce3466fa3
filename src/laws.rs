//! Properties of generation and meshing that hold for every input.

use vstd::prelude::*;
use crate::block::{BlockType, is_structure_block};
use crate::chunk::{x_of, y_of, z_of, lemma_index_round_trip, lemma_index_split};
use crate::terrain::{ChunkNoise, stone_height};
use crate::ore::{OreVein, OreStep, mark_ore, walk, walk_pos, apply_vein, apply_veins};
use crate::structures::{
    Structure, StructureKind, BlockWrite, Placement, put_block, put_all, place_all, structure_writes,
    trunk_writes, leaf_layer,
};
use crate::world::{WorldMap, chunk_key, only_structure_blocks, lookup};
use crate::block::transparent;
use crate::mesh::{MeshView, empty_mesh, chunk_mesh, water_mesh, voxel_mesh, block_faces, normal, side_at};
use crate::generation::{generated, merge_reserved, terrain_chunk, fresh_chunk};
use crate::{CHUNK_WIDTH, CHUNK_HEIGHT, CHUNK_VOL};

verus! {

/// b differs from a only where air became part of a structure or stone
/// became ore.
pub open spec fn refines(a: Seq<BlockType>, b: Seq<BlockType>) -> bool {
    &&& a.len() == b.len()
    &&& forall|i: int|
        0 <= i < a.len() ==> #[trigger] b[i] == a[i] || (a[i] == BlockType::Air && is_structure_block(
            b[i],
        )) || (a[i] == BlockType::Stone && b[i] == BlockType::OreStoneGold)
}

/// Bedrock on the whole floor, and stone only below each column's stone
/// height.
pub open spec fn floor_and_stone(noise: ChunkNoise, b: Seq<BlockType>) -> bool {
    &&& b.len() == CHUNK_VOL
    &&& forall|i: int| 0 <= i < CHUNK_VOL && y_of(i) == 0 ==> #[trigger] b[i] == BlockType::BedRock
    &&& forall|i: int|
        0 <= i < CHUNK_VOL && #[trigger] b[i] == BlockType::Stone ==> y_of(i) < stone_height(
            noise.column_of(i),
        )
}

/// Every reserved entry is a whole chunk of air and structure blocks.
pub open spec fn reserved_ok(rs: Map<(i32, i32), Seq<BlockType>>) -> bool {
    forall|t: (i32, i32)|
        #[trigger] rs.contains_key(t) ==> rs[t].len() == CHUNK_VOL && only_structure_blocks(rs[t])
}

proof fn lemma_refines_trans(a: Seq<BlockType>, b: Seq<BlockType>, c: Seq<BlockType>)
    requires
        refines(a, b),
        refines(b, c),
    ensures
        refines(a, c),
{
    assert forall|i: int| 0 <= i < a.len() implies #[trigger] c[i] == a[i] || (a[i] == BlockType::Air
        && is_structure_block(c[i])) || (a[i] == BlockType::Stone && c[i]
        == BlockType::OreStoneGold) by {
        assert(b[i] == b[i]);
        assert(c[i] == c[i]);
    }
}

proof fn lemma_refines_keeps(noise: ChunkNoise, a: Seq<BlockType>, b: Seq<BlockType>)
    requires
        floor_and_stone(noise, a),
        refines(a, b),
    ensures
        floor_and_stone(noise, b),
{
    assert forall|i: int| 0 <= i < CHUNK_VOL && y_of(i) == 0 implies #[trigger] b[i]
        == BlockType::BedRock by {
        assert(a[i] == BlockType::BedRock);
    }
    assert forall|i: int| 0 <= i < CHUNK_VOL && #[trigger] b[i] == BlockType::Stone implies y_of(i)
        < stone_height(noise.column_of(i)) by {
        assert(a[i] == BlockType::Stone);
    }
}

proof fn lemma_walk_refines(b: Seq<BlockType>, start: int, steps: Seq<OreStep>)
    requires
        b.len() == CHUNK_VOL,
    ensures
        refines(b, walk(b, start, steps)),
    decreases steps.len(),
{
    if steps.len() > 0 {
        let prev = walk(b, start, steps.drop_last());
        lemma_walk_refines(b, start, steps.drop_last());
        let next = mark_ore(prev, walk_pos(start, steps));
        assert(refines(prev, next));
        lemma_refines_trans(b, prev, next);
    } else {
        assert(refines(b, b));
    }
}

pub(crate) proof fn lemma_veins_refine(b: Seq<BlockType>, veins: Seq<OreVein>)
    requires
        b.len() == CHUNK_VOL,
        forall|k: int| 0 <= k < veins.len() ==> (#[trigger] veins[k]).wf(),
    ensures
        refines(b, apply_veins(b, veins)),
    decreases veins.len(),
{
    if veins.len() == 0 {
        assert(refines(b, b));
    } else {
        let v = veins.last();
        let prev = apply_veins(b, veins.drop_last());
        lemma_veins_refine(b, veins.drop_last());
        assert(v.wf());
        if prev[v.start as int] == BlockType::Stone {
            let marked = prev.update(v.start as int, BlockType::OreStoneGold);
            assert(refines(prev, marked));
            lemma_walk_refines(marked, v.start as int, v.steps@);
            lemma_refines_trans(prev, marked, walk(marked, v.start as int, v.steps@));
            lemma_refines_trans(b, prev, apply_vein(prev, v.start as int, v.steps@));
        }
    }
}

/// Whether a placement state is one generation works on: a whole chunk and
/// reserved entries of air and structure blocks.
pub open spec fn placement_ok(st: Placement) -> bool {
    st.0.len() == CHUNK_VOL && reserved_ok(st.1)
}

proof fn lemma_put_refines(st: Placement, c: (i32, i32), w: BlockWrite)
    requires
        placement_ok(st),
        is_structure_block(w.block),
    ensures
        placement_ok(put_block(st, c, w)),
        refines(st.0, put_block(st, c, w).0),
        forall|t: (i32, i32)| #[trigger] st.1.contains_key(t) ==> put_block(st, c, w).1.contains_key(t),
        put_block(st, c, w).1.contains_key(c) == st.1.contains_key(c),
        st.1.contains_key(c) ==> put_block(st, c, w).1[c] == st.1[c],
{
    let wd = CHUNK_WIDTH as int;
    let x = (w.x as int) % wd;
    let z = (w.z as int) % wd;
    if 0 <= w.y < CHUNK_HEIGHT {
        lemma_index_round_trip(x, w.y as int, z);
    }
    let next = put_block(st, c, w);
    assert(refines(st.0, next.0));
    assert forall|t: (i32, i32)| #[trigger] next.1.contains_key(t) implies next.1[t].len() == CHUNK_VOL
        && only_structure_blocks(next.1[t]) by {
        if st.1.contains_key(t) {
            assert(st.1[t].len() == CHUNK_VOL && only_structure_blocks(st.1[t]));
        }
    }
}

proof fn lemma_put_all_refines(st: Placement, c: (i32, i32), ws: Seq<BlockWrite>)
    requires
        placement_ok(st),
        forall|k: int| 0 <= k < ws.len() ==> is_structure_block((#[trigger] ws[k]).block),
    ensures
        placement_ok(put_all(st, c, ws)),
        refines(st.0, put_all(st, c, ws).0),
        forall|t: (i32, i32)| #[trigger] st.1.contains_key(t) ==> put_all(st, c, ws).1.contains_key(t),
        put_all(st, c, ws).1.contains_key(c) == st.1.contains_key(c),
        st.1.contains_key(c) ==> put_all(st, c, ws).1[c] == st.1[c],
    decreases ws.len(),
{
    if ws.len() == 0 {
        assert(refines(st.0, st.0));
    } else {
        let prev = put_all(st, c, ws.drop_last());
        lemma_put_all_refines(st, c, ws.drop_last());
        assert(is_structure_block(ws[ws.len() - 1].block));
        lemma_put_refines(prev, c, ws.last());
        lemma_refines_trans(st.0, prev.0, put_block(prev, c, ws.last()).0);
    }
}

proof fn lemma_writes_are_structure_blocks(s: Structure)
    ensures
        forall|k: int|
            0 <= k < structure_writes(s).len() ==> is_structure_block(
                (#[trigger] structure_writes(s)[k]).block,
            ),
{
    let ws = structure_writes(s);
    assert forall|k: int| 0 <= k < ws.len() implies is_structure_block((#[trigger] ws[k]).block) by {
        match s.kind {
            StructureKind::Cactus => {},
            StructureKind::Tree => {
                let top = s.y + s.height;
                let t = trunk_writes(s, BlockType::Wood);
                let l1 = leaf_layer(s, top - 1, 2, 5, 25);
                let l2 = leaf_layer(s, top as int, 2, 5, 25);
                let l3 = leaf_layer(s, top + 1, 1, 3, 9);
                assert(ws == t + l1 + l2 + l3);
                if k < t.len() {
                    assert(ws[k] == t[k]);
                } else if k < t.len() + 25 {
                    assert(ws[k] == l1[k - t.len()]);
                } else if k < t.len() + 50 {
                    assert(ws[k] == l2[k - t.len() - 25]);
                } else {
                    assert(ws[k] == l3[k - t.len() - 50]);
                }
            },
        }
    }
}

proof fn lemma_place_all_refines(st: Placement, c: (i32, i32), ss: Seq<Structure>)
    requires
        placement_ok(st),
    ensures
        placement_ok(place_all(st, c, ss)),
        refines(st.0, place_all(st, c, ss).0),
        forall|t: (i32, i32)| #[trigger] st.1.contains_key(t) ==> place_all(st, c, ss).1.contains_key(t),
        place_all(st, c, ss).1.contains_key(c) == st.1.contains_key(c),
        st.1.contains_key(c) ==> place_all(st, c, ss).1[c] == st.1[c],
    decreases ss.len(),
{
    if ss.len() == 0 {
        assert(refines(st.0, st.0));
    } else {
        let prev = place_all(st, c, ss.drop_last());
        lemma_place_all_refines(st, c, ss.drop_last());
        lemma_writes_are_structure_blocks(ss.last());
        lemma_put_all_refines(prev, c, structure_writes(ss.last()));
        lemma_refines_trans(st.0, prev.0, put_all(prev, c, structure_writes(ss.last())).0);
    }
}

/// Every chunk that generation stores has bedrock on its whole floor and no
/// stone at or above its column's stone height, whatever veins and
/// structures were drawn and whatever neighbours reserved for it.
pub proof fn lemma_generated_floor_and_stone(
    chunks: Map<(i32, i32), Seq<BlockType>>,
    reserved: Map<(i32, i32), Seq<BlockType>>,
    c: (i32, i32),
    noise: ChunkNoise,
    veins: Seq<OreVein>,
    ss: Seq<Structure>,
)
    requires
        noise.wf(),
        reserved_ok(reserved),
        forall|k: int| 0 <= k < veins.len() ==> (#[trigger] veins[k]).wf(),
    ensures
        generated(chunks, reserved, c, noise, veins, ss).0.contains_key(c),
        floor_and_stone(noise, generated(chunks, reserved, c, noise, veins, ss).0[c]),
{
    let terrain = terrain_chunk(noise);
    assert(floor_and_stone(noise, terrain));
    let ored = apply_veins(terrain, veins);
    lemma_veins_refine(terrain, veins);
    lemma_refines_keeps(noise, terrain, ored);
    let st: Placement = (ored, reserved);
    lemma_place_all_refines(st, c, ss);
    let (b, rs) = place_all(st, c, ss);
    lemma_refines_keeps(noise, ored, b);
    if rs.contains_key(c) {
        let merged = merge_reserved(b, rs[c]);
        assert(rs[c].len() == CHUNK_VOL && only_structure_blocks(rs[c]));
        assert(refines(b, merged));
        lemma_refines_keeps(noise, b, merged);
    }
}

proof fn lemma_put_all_append(st: Placement, c: (i32, i32), a: Seq<BlockWrite>, b: Seq<BlockWrite>)
    ensures
        put_all(st, c, a + b) == put_all(put_all(st, c, a), c, b),
    decreases b.len(),
{
    if b.len() == 0 {
        assert(a + b =~= a);
    } else {
        lemma_put_all_append(st, c, a, b.drop_last());
        assert((a + b).drop_last() =~= a + b.drop_last());
        assert((a + b).last() == b.last());
    }
}

/// Merging a reserved entry only fills air: a cell differs from the fresh
/// block only where the fresh block is air and a non-air block was reserved,
/// and then holds the reserved block.
pub proof fn lemma_merge_only_fills_air(fresh: Seq<BlockType>, kept: Seq<BlockType>)
    ensures
        merge_reserved(fresh, kept).len() == fresh.len(),
        forall|i: int|
            0 <= i < fresh.len() && #[trigger] merge_reserved(fresh, kept)[i] != fresh[i] ==> fresh[i]
                == BlockType::Air && kept[i] != BlockType::Air && merge_reserved(fresh, kept)[i]
                == kept[i],
{
}

/// The chunk beyond the +x edge of chunk c.
pub open spec fn east_of(c: (i32, i32)) -> (i32, i32) {
    ((c.0 + 1) as i32, c.1)
}

/// Every reserved entry of a well-formed world is a whole chunk of air and
/// structure blocks.
pub proof fn lemma_world_reserved_ok(w: WorldMap)
    requires
        w.wf(),
    ensures
        reserved_ok(w.reserved_view()),
{
    assert forall|t: (i32, i32)| #[trigger] w.reserved_view().contains_key(t) implies w.reserved_view()[t].len()
        == CHUNK_VOL && only_structure_blocks(w.reserved_view()[t]) by {
        assert(w.reserved_chunk_data@.contains_key(chunk_key(t)));
    }
}

/// Generating chunk c stores it and changes no other stored chunk; the
/// stored blocks are the fresh blocks with the entry reserved for c, as it
/// stood before generation, merged in; and that entry is deleted. The
/// chunk's own structures never write into its reserved entry.
pub proof fn lemma_generated_merges_own_entry(
    chunks: Map<(i32, i32), Seq<BlockType>>,
    reserved: Map<(i32, i32), Seq<BlockType>>,
    c: (i32, i32),
    noise: ChunkNoise,
    veins: Seq<OreVein>,
    ss: Seq<Structure>,
)
    requires
        reserved_ok(reserved),
        forall|k: int| 0 <= k < veins.len() ==> (#[trigger] veins[k]).wf(),
    ensures
        generated(chunks, reserved, c, noise, veins, ss).0 == chunks.insert(
            c,
            generated(chunks, reserved, c, noise, veins, ss).0[c],
        ),
        !generated(chunks, reserved, c, noise, veins, ss).1.contains_key(c),
        generated(chunks, reserved, c, noise, veins, ss).0[c] == if reserved.contains_key(c) {
            merge_reserved(fresh_chunk(reserved, c, noise, veins, ss), reserved[c])
        } else {
            fresh_chunk(reserved, c, noise, veins, ss)
        },
{
    let terrain = terrain_chunk(noise);
    lemma_veins_refine(terrain, veins);
    let ored = apply_veins(terrain, veins);
    lemma_place_all_refines((ored, reserved), c, ss);
    let g = generated(chunks, reserved, c, noise, veins, ss);
    assert(g.0 =~= chunks.insert(c, g.0[c]));
}

/// A tree whose canopy reaches past the +x edge of chunk c leaves a
/// reserved entry for the chunk beyond that edge. Generating that chunk
/// afterwards stores its fresh blocks with the reserved entry merged in, so
/// that a cell differs from the fresh block only where the fresh block is
/// air and a non-air block was reserved there (see
/// `lemma_merge_only_fills_air`), and deletes the entry.
pub proof fn lemma_reserved_write_merge(
    st: Placement,
    chunks: Map<(i32, i32), Seq<BlockType>>,
    c: (i32, i32),
    s: Structure,
    noise: ChunkNoise,
    veins: Seq<OreVein>,
    ss: Seq<Structure>,
)
    requires
        placement_ok(st),
        s.wf(),
        s.kind == StructureKind::Tree,
        s.x + 2 >= CHUNK_WIDTH,
        s.y + s.height < CHUNK_HEIGHT,
        c.0 < i32::MAX,
        forall|k: int| 0 <= k < veins.len() ==> (#[trigger] veins[k]).wf(),
    ensures
        put_all(st, c, structure_writes(s)).1.contains_key(east_of(c)),
        generated(chunks, put_all(st, c, structure_writes(s)).1, east_of(c), noise, veins, ss).0[east_of(c)]
            == merge_reserved(
            fresh_chunk(put_all(st, c, structure_writes(s)).1, east_of(c), noise, veins, ss),
            put_all(st, c, structure_writes(s)).1[east_of(c)],
        ),
        !generated(chunks, put_all(st, c, structure_writes(s)).1, east_of(c), noise, veins, ss).1.contains_key(
            east_of(c),
        ),
{
    let n = east_of(c);
    let ws = structure_writes(s);
    let h = s.height as int;
    let idx = h + 14;
    lemma_writes_are_structure_blocks(s);
    let top = s.y + s.height;
    let t = trunk_writes(s, BlockType::Wood);
    let l1 = leaf_layer(s, top - 1, 2, 5, 25);
    assert(ws == t + l1 + leaf_layer(s, top as int, 2, 5, 25) + leaf_layer(s, top + 1, 1, 3, 9));
    assert(ws[idx] == l1[14]);
    let w = ws[idx];
    assert(w.x == s.x + 2 && w.z == s.z && w.y == top - 1);
    let head = ws.take(idx + 1);
    let tail = ws.skip(idx + 1);
    assert(ws =~= head + tail);
    lemma_put_all_append(st, c, head, tail);
    assert(head.drop_last() =~= ws.take(idx));
    let mid = put_all(st, c, ws.take(idx));
    lemma_put_all_refines(st, c, ws.take(idx));
    let wd = CHUNK_WIDTH as int;
    assert((w.x as int) / wd == 1);
    assert((w.z as int) / wd == 0);
    lemma_index_round_trip((w.x as int) % wd, w.y as int, (w.z as int) % wd);
    let placed = put_block(mid, c, w);
    assert(placed == put_all(st, c, head));
    assert(placed.1.contains_key(n));
    lemma_put_refines(mid, c, w);
    lemma_put_all_refines(placed, c, tail);
    let after = put_all(st, c, ws);
    assert(after.1.contains_key(n));
    lemma_generated_merges_own_entry(chunks, after.1, n, noise, veins, ss);
}

proof fn lemma_own_cell(ch: Map<(i32, i32), Seq<BlockType>>, c: (i32, i32), i: int)
    requires
        0 <= i < CHUNK_VOL,
        ch.contains_key(c),
    ensures
        lookup(ch, c, x_of(i), y_of(i), z_of(i)) == ch[c][i],
{
    lemma_index_split(i);
    let wd = CHUNK_WIDTH as int;
    assert(x_of(i) / wd == 0 && x_of(i) % wd == x_of(i));
    assert(z_of(i) / wd == 0 && z_of(i) % wd == z_of(i));
}

/// A stored chunk of air emits no solid faces and no water surface.
pub proof fn lemma_air_chunk_has_no_faces(ch: Map<(i32, i32), Seq<BlockType>>, c: (i32, i32))
    requires
        ch.contains_key(c),
        forall|i: int| 0 <= i < CHUNK_VOL ==> #[trigger] ch[c][i] == BlockType::Air,
    ensures
        chunk_mesh(ch, c, CHUNK_VOL as nat) == empty_mesh(),
        water_mesh(ch, c, CHUNK_VOL as nat) == empty_mesh(),
{
    lemma_air_prefix_has_no_faces(ch, c, CHUNK_VOL as nat);
}

proof fn lemma_air_prefix_has_no_faces(ch: Map<(i32, i32), Seq<BlockType>>, c: (i32, i32), n: nat)
    requires
        n <= CHUNK_VOL,
        ch.contains_key(c),
        forall|i: int| 0 <= i < CHUNK_VOL ==> #[trigger] ch[c][i] == BlockType::Air,
    ensures
        chunk_mesh(ch, c, n) == empty_mesh(),
        water_mesh(ch, c, n) == empty_mesh(),
    decreases n,
{
    if n > 0 {
        let i = n - 1;
        lemma_air_prefix_has_no_faces(ch, c, (n - 1) as nat);
        lemma_own_cell(ch, c, i);
        assert(ch[c][i] == BlockType::Air);
    }
}

proof fn lemma_closed_faces(
    m: MeshView,
    ch: Map<(i32, i32), Seq<BlockType>>,
    c: (i32, i32),
    x: int,
    y: int,
    z: int,
    b: BlockType,
    k: nat,
)
    requires
        k <= 6,
        forall|j: int|
            0 <= j < 6 ==> !transparent(
                #[trigger] lookup(
                    ch,
                    c,
                    x + normal(side_at(j)).0,
                    y + normal(side_at(j)).1,
                    z + normal(side_at(j)).2,
                ),
            ),
    ensures
        block_faces(m, ch, c, x, y, z, b, k) == m,
    decreases k,
{
    if k > 0 {
        lemma_closed_faces(m, ch, c, x, y, z, b, (k - 1) as nat);
        let j = k - 1;
        assert(!transparent(
            lookup(ch, c, x + normal(side_at(j)).0, y + normal(side_at(j)).1, z + normal(side_at(j)).2),
        ));
    }
}

/// A voxel whose six face neighbours are all opaque emits no faces.
pub proof fn lemma_enclosed_voxel_has_no_faces(
    m: MeshView,
    ch: Map<(i32, i32), Seq<BlockType>>,
    c: (i32, i32),
    x: int,
    y: int,
    z: int,
)
    requires
        !transparent(lookup(ch, c, x + 1, y, z)),
        !transparent(lookup(ch, c, x - 1, y, z)),
        !transparent(lookup(ch, c, x, y, z - 1)),
        !transparent(lookup(ch, c, x, y, z + 1)),
        !transparent(lookup(ch, c, x, y - 1, z)),
        !transparent(lookup(ch, c, x, y + 1, z)),
    ensures
        voxel_mesh(m, ch, c, x, y, z) == m,
{
    assert forall|j: int|
        0 <= j < 6 implies !transparent(
        #[trigger] lookup(
            ch,
            c,
            x + normal(side_at(j)).0,
            y + normal(side_at(j)).1,
            z + normal(side_at(j)).2,
        ),
    ) by {
        if j == 0 {
        } else if j == 1 {
        } else if j == 2 {
        } else if j == 3 {
        } else if j == 4 {
        } else {
        }
    }
    let b = lookup(ch, c, x, y, z);
    if !transparent(b) {
        lemma_closed_faces(m, ch, c, x, y, z, b, 6);
    }
}

} // verus!
