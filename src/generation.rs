//! Generation of one chunk: terrain, ore, structures, and the merge of the
//! blocks that neighbours reserved for it.

use vstd::prelude::*;
use rand::rngs::StdRng;
use vstd::math::abs;
use crate::block::BlockType;
use crate::chunk::{Chunk, x_of, y_of, z_of, decompose, lemma_index_split};
use crate::terrain::{
    ChunkNoise, ColumnNoise, shape_block, cover_block, terrain_block, is_desert, is_cactus_climate,
    column_at, height_by_coords, cover_block_at, desert_at, temperature_at, humidity_at,
    generate_terrain_shape, generate_terrain_cover, NOISE_ONE,
};
use crate::ore::{OreVein, MAX_VEINS, apply_veins, apply_ore_veins, draw_ore_veins};
use crate::structures::{Structure, StructureKind, place_all, place_structures};
use crate::world::{WorldMap, key_of, lemma_model_insert, lemma_model_remove};
use crate::laws::{lemma_world_reserved_ok, lemma_generated_merges_own_entry};
use crate::outside::{seeded_rng, draw_in};
use crate::{CHUNK_WIDTH, CHUNK_HEIGHT, CHUNK_VOL};

verus! {

broadcast use vstd::std_specs::hash::group_hash_axioms;

/// The samples of column (x, z).
pub open spec fn column(noise: ChunkNoise, x: int, z: int) -> ColumnNoise {
    noise.columns@[x + z * CHUNK_WIDTH]
}

/// A surface cell where a structure may stand: sand or grass left by the
/// cover pass.
pub open spec fn is_tree_candidate(c: ColumnNoise, y: int) -> bool {
    &&& shape_block(c, y) is None
    &&& (cover_block(c, y) == BlockType::Sand || cover_block(c, y) == BlockType::Grass)
}

/// The tree channel that a column reads: the fine one in the desert, the
/// coarse one elsewhere.
pub open spec fn tree_value(c: ColumnNoise) -> int {
    if is_desert(c) {
        c.tree_sparse as int
    } else {
        c.tree_dense as int
    }
}

/// The density constant a drawn threshold must exceed: 0.96 in the desert,
/// 0.6 elsewhere.
pub open spec fn tree_density(c: ColumnNoise) -> int {
    if is_desert(c) {
        960_000
    } else {
        600_000
    }
}

/// Whether a drawn threshold t lets a structure grow in a column: the tree
/// value exceeds 0.2 and t exceeds the density.
pub open spec fn tree_admits(c: ColumnNoise, t: int) -> bool {
    tree_value(c) > 200_000 && t > tree_density(c)
}

/// The tree channel value of a column.
fn tree_value_at(c: &ColumnNoise) -> (r: i64)
    ensures
        r == tree_value(*c),
{
    if desert_at(c) {
        c.tree_sparse as i64
    } else {
        c.tree_dense as i64
    }
}

/// Whether linear index i is a cell where a structure may stand.
pub open spec fn candidate_at(noise: ChunkNoise, i: int) -> bool {
    is_tree_candidate(noise.column_of(i), y_of(i))
}

/// The cell of linear index i, as a site.
pub open spec fn site_of(i: int) -> (usize, usize, usize) {
    (x_of(i) as usize, y_of(i) as usize, z_of(i) as usize)
}

/// A site inside the chunk.
pub open spec fn site_ok(p: (usize, usize, usize)) -> bool {
    p.0 < CHUNK_WIDTH && p.1 < CHUNK_HEIGHT && p.2 < CHUNK_WIDTH
}

/// The structure candidates among the first n cells, in index order.
pub open spec fn candidates_upto(noise: ChunkNoise, n: nat) -> Seq<(usize, usize, usize)>
    decreases n,
{
    if n == 0 {
        Seq::empty()
    } else {
        let prev = candidates_upto(noise, (n - 1) as nat);
        if candidate_at(noise, n - 1) {
            prev.push(site_of(n - 1))
        } else {
            prev
        }
    }
}

/// All structure candidates of a chunk, in index order.
pub open spec fn tree_candidates(noise: ChunkNoise) -> Seq<(usize, usize, usize)> {
    candidates_upto(noise, CHUNK_VOL as nat)
}

/// The samples of the column of a site.
pub open spec fn site_column(noise: ChunkNoise, p: (usize, usize, usize)) -> ColumnNoise {
    column(noise, p.0 as int, p.2 as int)
}

/// The sites of `cands` whose threshold, at the same position of `d`, is
/// admitted, in order.
pub open spec fn admitted_among(
    noise: ChunkNoise,
    cands: Seq<(usize, usize, usize)>,
    d: Seq<i64>,
) -> Seq<(usize, usize, usize)>
    decreases cands.len(),
{
    if cands.len() == 0 {
        Seq::empty()
    } else {
        let k = cands.len() - 1;
        let prev = admitted_among(noise, cands.drop_last(), d);
        if tree_admits(site_column(noise, cands[k]), d[k] as int) {
            prev.push(cands[k])
        } else {
            prev
        }
    }
}

/// The candidates whose threshold, one drawn per candidate in order, is
/// admitted.
pub open spec fn admitted_sites(noise: ChunkNoise, d: Seq<i64>) -> Seq<(usize, usize, usize)> {
    admitted_among(noise, tree_candidates(noise), d)
}

/// Thresholds as generation draws them: one per candidate, each from
/// `[-1, |tree value|)` of the candidate's column.
pub open spec fn valid_tree_draws(noise: ChunkNoise, d: Seq<i64>) -> bool {
    &&& d.len() == tree_candidates(noise).len()
    &&& forall|k: int|
        0 <= k < d.len() ==> -NOISE_ONE <= #[trigger] d[k] < abs(
            tree_value(site_column(noise, tree_candidates(noise)[k])),
        )
}

/// The structure on a site: a cactus where the climate is hot and dry, a
/// tree elsewhere, of height h.
pub open spec fn structure_at(noise: ChunkNoise, p: (usize, usize, usize), h: i64) -> Structure {
    Structure {
        x: p.0,
        y: p.1,
        z: p.2,
        kind: if is_cactus_climate(site_column(noise, p)) {
            StructureKind::Cactus
        } else {
            StructureKind::Tree
        },
        height: h as usize,
    }
}

/// The structures on the sites, with the heights at the same positions.
pub open spec fn structures_of(
    noise: ChunkNoise,
    sites: Seq<(usize, usize, usize)>,
    hs: Seq<i64>,
) -> Seq<Structure> {
    Seq::new(sites.len(), |k: int| structure_at(noise, sites[k], hs[k]))
}

/// A height drawn for a site: 2 to 4 for a cactus, 3 to 5 for a tree.
pub open spec fn height_in_range(noise: ChunkNoise, p: (usize, usize, usize), h: i64) -> bool {
    if is_cactus_climate(site_column(noise, p)) {
        2 <= h < 5
    } else {
        3 <= h < 6
    }
}

/// One height per site, each in its range.
pub open spec fn valid_heights(noise: ChunkNoise, sites: Seq<(usize, usize, usize)>, hs: Seq<i64>) -> bool {
    &&& hs.len() == sites.len()
    &&& forall|k: int| 0 <= k < hs.len() ==> height_in_range(noise, sites[k], #[trigger] hs[k])
}

proof fn lemma_candidates_in_chunk(noise: ChunkNoise, n: nat)
    requires
        n <= CHUNK_VOL,
    ensures
        forall|k: int|
            0 <= k < candidates_upto(noise, n).len() ==> site_ok(
                #[trigger] candidates_upto(noise, n)[k],
            ),
    decreases n,
{
    if n > 0 {
        let i = n - 1;
        lemma_candidates_in_chunk(noise, (n - 1) as nat);
        lemma_index_split(i);
        let prev = candidates_upto(noise, (n - 1) as nat);
        let cur = candidates_upto(noise, n);
        assert(site_ok(site_of(i)));
        assert forall|k: int| 0 <= k < cur.len() implies site_ok(#[trigger] cur[k]) by {
            if k < prev.len() {
                assert(cur[k] == prev[k]);
            }
        }
    }
}

proof fn lemma_admitted_in_chunk(noise: ChunkNoise, cands: Seq<(usize, usize, usize)>, d: Seq<i64>)
    requires
        forall|k: int| 0 <= k < cands.len() ==> site_ok(#[trigger] cands[k]),
    ensures
        forall|k: int|
            0 <= k < admitted_among(noise, cands, d).len() ==> site_ok(
                #[trigger] admitted_among(noise, cands, d)[k],
            ),
    decreases cands.len(),
{
    if cands.len() > 0 {
        let last = cands.len() - 1;
        let rest = cands.drop_last();
        assert forall|k: int| 0 <= k < rest.len() implies site_ok(#[trigger] rest[k]) by {
            assert(rest[k] == cands[k]);
        }
        lemma_admitted_in_chunk(noise, rest, d);
        assert(site_ok(cands[last]));
        let prev = admitted_among(noise, rest, d);
        let cur = admitted_among(noise, cands, d);
        assert forall|k: int| 0 <= k < cur.len() implies site_ok(#[trigger] cur[k]) by {
            if k < prev.len() {
                assert(cur[k] == prev[k]);
            }
        }
    }
}

/// The admitted sites lie inside the chunk.
pub proof fn lemma_sites_in_chunk(noise: ChunkNoise, d: Seq<i64>)
    ensures
        forall|k: int| 0 <= k < tree_candidates(noise).len() ==> site_ok(#[trigger] tree_candidates(noise)[k]),
        forall|k: int| 0 <= k < admitted_sites(noise, d).len() ==> site_ok(#[trigger] admitted_sites(noise, d)[k]),
{
    lemma_candidates_in_chunk(noise, CHUNK_VOL as nat);
    lemma_admitted_in_chunk(noise, tree_candidates(noise), d);
}

proof fn lemma_structures_wf(noise: ChunkNoise, sites: Seq<(usize, usize, usize)>, hs: Seq<i64>)
    requires
        forall|k: int| 0 <= k < sites.len() ==> site_ok(#[trigger] sites[k]),
        valid_heights(noise, sites, hs),
    ensures
        forall|k: int| 0 <= k < sites.len() ==> (#[trigger] structures_of(noise, sites, hs)[k]).wf(),
{
    assert forall|k: int| 0 <= k < sites.len() implies (#[trigger] structures_of(noise, sites, hs)[k]).wf() by {
        assert(site_ok(sites[k]));
        assert(height_in_range(noise, sites[k], hs[k]));
    }
}

/// The structure candidates of a chunk, in index order.
pub fn tree_candidate_cells(noise: &ChunkNoise) -> (r: Vec<(usize, usize, usize)>)
    requires
        noise.wf(),
    ensures
        r@ == tree_candidates(*noise),
{
    let mut r: Vec<(usize, usize, usize)> = Vec::new();
    let mut i: usize = 0;
    while i < CHUNK_VOL
        invariant
            noise.wf(),
            i <= CHUNK_VOL,
            r@ == candidates_upto(*noise, i as nat),
        decreases CHUNK_VOL - i,
    {
        let (x, y, z) = decompose(i);
        let c = column_at(noise, i);
        let (stone, _cover) = height_by_coords(&c);
        if y != 0 && (y as i64) >= stone {
            let b = cover_block_at(&c, y);
            if b == BlockType::Sand || b == BlockType::Grass {
                r.push((x, y, z));
            }
        }
        i = i + 1;
    }
    r
}

/// Whether threshold t admits a structure in column c.
fn admits(c: &ColumnNoise, t: i64) -> (r: bool)
    ensures
        r == tree_admits(*c, t as int),
{
    let density: i64 = if desert_at(c) {
        960_000
    } else {
        600_000
    };
    tree_value_at(c) > 200_000 && t > density
}

/// The candidates whose threshold in `draws`, one per candidate in index
/// order, is admitted: the tree value exceeds 0.2 and the threshold exceeds
/// the density of the column.
pub fn select_tree_sites(noise: &ChunkNoise, draws: &Vec<i64>) -> (r: Vec<(usize, usize, usize)>)
    requires
        noise.wf(),
        draws@.len() == tree_candidates(*noise).len(),
    ensures
        r@ == admitted_sites(*noise, draws@),
{
    let cands = tree_candidate_cells(noise);
    proof {
        lemma_sites_in_chunk(*noise, draws@);
    }
    let mut r: Vec<(usize, usize, usize)> = Vec::new();
    let mut k: usize = 0;
    while k < cands.len()
        invariant
            noise.wf(),
            cands@ == tree_candidates(*noise),
            draws@.len() == cands@.len(),
            forall|j: int| 0 <= j < cands@.len() ==> site_ok(#[trigger] cands@[j]),
            k <= cands@.len(),
            r@ == admitted_among(*noise, cands@.take(k as int), draws@),
        decreases cands@.len() - k,
    {
        assert(cands@.take(k as int + 1).drop_last() =~= cands@.take(k as int));
        assert(cands@.take(k as int + 1)[k as int] == cands@[k as int]);
        let (x, _y, z) = cands[k];
        assert(site_ok(cands@[k as int]));
        let c = noise.columns[x + z * CHUNK_WIDTH];
        if admits(&c, draws[k]) {
            r.push(cands[k]);
        }
        k = k + 1;
    }
    assert(cands@.take(k as int) =~= cands@);
    r
}

/// Draws one threshold per structure candidate, in index order, each from
/// `[-1, |tree value|)` of the candidate's column.
pub fn draw_tree_thresholds(random: &mut StdRng, noise: &ChunkNoise) -> (r: Vec<i64>)
    requires
        noise.wf(),
    ensures
        valid_tree_draws(*noise, r@),
{
    let cands = tree_candidate_cells(noise);
    proof {
        lemma_sites_in_chunk(*noise, Seq::empty());
    }
    let mut r: Vec<i64> = Vec::new();
    let mut k: usize = 0;
    while k < cands.len()
        invariant
            noise.wf(),
            cands@ == tree_candidates(*noise),
            forall|j: int| 0 <= j < cands@.len() ==> site_ok(#[trigger] cands@[j]),
            k <= cands@.len(),
            r@.len() == k,
            forall|j: int|
                0 <= j < k ==> -NOISE_ONE <= #[trigger] r@[j] < abs(
                    tree_value(site_column(*noise, cands@[j])),
                ),
        decreases cands@.len() - k,
    {
        let (x, _y, z) = cands[k];
        assert(site_ok(cands@[k as int]));
        let c = noise.columns[x + z * CHUNK_WIDTH];
        let tv = tree_value_at(&c);
        let bound: i64 = if tv < 0 {
            -tv
        } else {
            tv
        };
        let t = draw_in(random, -NOISE_ONE, bound);
        r.push(t);
        k = k + 1;
    }
    r
}

/// The structures on the sites: a cactus where the climate is hot and dry,
/// a tree elsewhere, with the height at the same position of `heights`.
pub fn build_structures(
    noise: &ChunkNoise,
    sites: &Vec<(usize, usize, usize)>,
    heights: &Vec<i64>,
) -> (r: Vec<Structure>)
    requires
        noise.wf(),
        forall|k: int| 0 <= k < sites@.len() ==> site_ok(#[trigger] sites@[k]),
        valid_heights(*noise, sites@, heights@),
    ensures
        r@ == structures_of(*noise, sites@, heights@),
{
    let mut r: Vec<Structure> = Vec::new();
    let mut k: usize = 0;
    while k < sites.len()
        invariant
            noise.wf(),
            forall|j: int| 0 <= j < sites@.len() ==> site_ok(#[trigger] sites@[j]),
            valid_heights(*noise, sites@, heights@),
            k <= sites@.len(),
            r@ =~= structures_of(*noise, sites@, heights@).take(k as int),
        decreases sites@.len() - k,
    {
        let (x, y, z) = sites[k];
        assert(site_ok(sites@[k as int]));
        assert(height_in_range(*noise, sites@[k as int], heights@[k as int]));
        let c = noise.columns[x + z * CHUNK_WIDTH];
        let kind = if temperature_at(&c) > 650_000 && humidity_at(&c) < 400_000 {
            StructureKind::Cactus
        } else {
            StructureKind::Tree
        };
        r.push(Structure { x, y, z, kind, height: heights[k] as usize });
        k = k + 1;
    }
    r
}

/// Draws, for each site in order, the height of its structure: 2 to 4 for
/// a cactus, 3 to 5 for a tree.
pub fn draw_structure_heights(
    random: &mut StdRng,
    noise: &ChunkNoise,
    sites: &Vec<(usize, usize, usize)>,
) -> (r: Vec<i64>)
    requires
        noise.wf(),
        forall|k: int| 0 <= k < sites@.len() ==> site_ok(#[trigger] sites@[k]),
    ensures
        valid_heights(*noise, sites@, r@),
{
    let mut r: Vec<i64> = Vec::new();
    let mut k: usize = 0;
    while k < sites.len()
        invariant
            noise.wf(),
            forall|j: int| 0 <= j < sites@.len() ==> site_ok(#[trigger] sites@[j]),
            k <= sites@.len(),
            r@.len() == k,
            forall|j: int| 0 <= j < k ==> height_in_range(*noise, sites@[j], #[trigger] r@[j]),
        decreases sites@.len() - k,
    {
        let (x, _y, z) = sites[k];
        assert(site_ok(sites@[k as int]));
        let c = noise.columns[x + z * CHUNK_WIDTH];
        let h = if temperature_at(&c) > 650_000 && humidity_at(&c) < 400_000 {
            draw_in(random, 2, 5)
        } else {
            draw_in(random, 3, 6)
        };
        r.push(h);
        k = k + 1;
    }
    r
}

/// Places the structures that the drawn thresholds and heights give: the
/// admitted candidates, each with the height at its position.
pub fn place_drawn_structures(
    chunk_pos: (i32, i32),
    noise: &ChunkNoise,
    blocks: &mut Chunk,
    world_map: &mut WorldMap,
    tree_draws: &Vec<i64>,
    heights: &Vec<i64>,
)
    requires
        noise.wf(),
        old(blocks).wf(),
        old(world_map).wf(),
        tree_draws@.len() == tree_candidates(*noise).len(),
        valid_heights(*noise, admitted_sites(*noise, tree_draws@), heights@),
    ensures
        final(blocks).wf(),
        final(world_map).wf(),
        (final(blocks)@, final(world_map).reserved_view()) == place_all(
            (old(blocks)@, old(world_map).reserved_view()),
            chunk_pos,
            structures_of(*noise, admitted_sites(*noise, tree_draws@), heights@),
        ),
        final(world_map).chunks == old(world_map).chunks,
        final(world_map).chunk_entities == old(world_map).chunk_entities,
        final(world_map).water_chunk_entities == old(world_map).water_chunk_entities,
        final(world_map).spawned == old(world_map).spawned,
{
    let sites = select_tree_sites(noise, tree_draws);
    proof {
        lemma_sites_in_chunk(*noise, tree_draws@);
    }
    let structures = build_structures(noise, &sites, heights);
    proof {
        lemma_structures_wf(*noise, sites@, heights@);
    }
    place_structures(blocks, world_map, chunk_pos, &structures);
}

/// A generated chunk with a reserved entry merged in: each air cell takes
/// the reserved block, when one is reserved there.
pub open spec fn merge_reserved(fresh: Seq<BlockType>, reserved: Seq<BlockType>) -> Seq<BlockType> {
    Seq::new(
        fresh.len(),
        |i: int|
            if reserved[i] != BlockType::Air && fresh[i] == BlockType::Air {
                reserved[i]
            } else {
                fresh[i]
            },
    )
}

/// Moves the blocks reserved for chunk c into its freshly generated blocks
/// and deletes the reserved entry.
pub fn take_reserved(world_map: &mut WorldMap, c: (i32, i32), blocks: &mut Chunk)
    requires
        old(world_map).wf(),
        old(blocks).wf(),
    ensures
        final(world_map).wf(),
        final(blocks).wf(),
        final(blocks)@ == if old(world_map).reserved_view().contains_key(c) {
            merge_reserved(old(blocks)@, old(world_map).reserved_view()[c])
        } else {
            old(blocks)@
        },
        final(world_map).reserved_view() == old(world_map).reserved_view().remove(c),
        final(world_map).reserved_chunk_data@ == old(world_map).reserved_chunk_data@.remove(
            crate::world::chunk_key(c),
        ),
        final(world_map).chunks == old(world_map).chunks,
        final(world_map).chunk_entities == old(world_map).chunk_entities,
        final(world_map).water_chunk_entities == old(world_map).water_chunk_entities,
        final(world_map).spawned == old(world_map).spawned,
{
    let k = key_of(c);
    let ghost reserved0 = world_map.reserved_chunk_data@;
    proof {
        lemma_model_remove(reserved0, c);
    }
    match world_map.reserved_chunk_data.remove(&k) {
        None => {
            assert(world_map.reserved_chunk_data@ =~= reserved0);
            assert(reserved0.remove(k) =~= reserved0);
            assert(old(world_map).reserved_view().remove(c) =~= old(world_map).reserved_view());
        },
        Some(entry) => {
            let ghost fresh = blocks@;
            let mut i: usize = 0;
            while i < CHUNK_VOL
                invariant
                    blocks.wf(),
                    entry.wf(),
                    i <= CHUNK_VOL,
                    fresh.len() == CHUNK_VOL,
                    forall|j: int| 0 <= j < i ==> #[trigger] blocks@[j] == merge_reserved(fresh, entry@)[j],
                    forall|j: int| i <= j < CHUNK_VOL ==> #[trigger] blocks@[j] == fresh[j],
                decreases CHUNK_VOL - i,
            {
                let r = entry.get(i);
                if r != BlockType::Air && blocks.get(i) == BlockType::Air {
                    blocks.set(i, r);
                }
                i = i + 1;
            }
            assert(blocks@ =~= merge_reserved(fresh, entry@));
        },
    }
}

/// The terrain of a chunk before ore and structures.
pub open spec fn terrain_chunk(noise: ChunkNoise) -> Seq<BlockType> {
    Seq::new(CHUNK_VOL as nat, |i: int| terrain_block(noise.column_of(i), y_of(i)))
}

/// The blocks generated for chunk c before its reserved entry is merged in:
/// terrain, then ore, then structures.
pub open spec fn fresh_chunk(
    reserved: Map<(i32, i32), Seq<BlockType>>,
    c: (i32, i32),
    noise: ChunkNoise,
    veins: Seq<OreVein>,
    ss: Seq<Structure>,
) -> Seq<BlockType> {
    place_all((apply_veins(terrain_chunk(noise), veins), reserved), c, ss).0
}

/// The chunks and reserved blocks after chunk c is generated from the given
/// noise, veins and structures: terrain, then ore, then structures, then the
/// blocks reserved for c merged in; the chunk is stored and its reserved
/// entry deleted. No other stored chunk changes.
pub open spec fn generated(
    chunks: Map<(i32, i32), Seq<BlockType>>,
    reserved: Map<(i32, i32), Seq<BlockType>>,
    c: (i32, i32),
    noise: ChunkNoise,
    veins: Seq<OreVein>,
    ss: Seq<Structure>,
) -> (Map<(i32, i32), Seq<BlockType>>, Map<(i32, i32), Seq<BlockType>>) {
    let ored = apply_veins(terrain_chunk(noise), veins);
    let (b, rs) = place_all((ored, reserved), c, ss);
    let merged = if rs.contains_key(c) {
        merge_reserved(b, rs[c])
    } else {
        b
    };
    (chunks.insert(c, merged), rs.remove(c))
}

/// The seed of a chunk's ore generator: the world seed plus both chunk
/// coordinates, wrapping at `u32`.
pub open spec fn ore_seed_of(seed: u32, chunk_pos: (i32, i32)) -> u32 {
    ((seed as int + (chunk_pos.0 as u32) as int + (chunk_pos.1 as u32) as int) % 0x1_0000_0000) as u32
}

/// The seed of a chunk's ore generator.
pub fn ore_seed(seed: u32, chunk_pos: (i32, i32)) -> (r: u32)
    ensures
        r == ore_seed_of(seed, chunk_pos),
{
    seed.wrapping_add(chunk_pos.0 as u32).wrapping_add(chunk_pos.1 as u32)
}

/// Generates chunk `chunk_pos` into the world from the noise samples and
/// the drawn plan: the ore veins, one threshold per structure candidate and
/// one height per admitted site. The chunk is stored in one insert, the
/// blocks reserved for it fill its air cells, and its reserved entry is
/// deleted.
pub fn generate_chunk_with(
    world_map: &mut WorldMap,
    chunk_pos: (i32, i32),
    noise: &ChunkNoise,
    veins: &Vec<OreVein>,
    tree_draws: &Vec<i64>,
    heights: &Vec<i64>,
)
    requires
        old(world_map).wf(),
        noise.wf(),
        forall|k: int| 0 <= k < veins@.len() ==> (#[trigger] veins@[k]).wf(),
        tree_draws@.len() == tree_candidates(*noise).len(),
        valid_heights(*noise, admitted_sites(*noise, tree_draws@), heights@),
    ensures
        final(world_map).wf(),
        (final(world_map).chunks_view(), final(world_map).reserved_view()) == generated(
            old(world_map).chunks_view(),
            old(world_map).reserved_view(),
            chunk_pos,
            *noise,
            veins@,
            structures_of(*noise, admitted_sites(*noise, tree_draws@), heights@),
        ),
        final(world_map).chunks_view() == old(world_map).chunks_view().insert(
            chunk_pos,
            final(world_map).chunks_view()[chunk_pos],
        ),
        !final(world_map).reserved_view().contains_key(chunk_pos),
        final(world_map).chunks_view()[chunk_pos] == if old(world_map).reserved_view().contains_key(
            chunk_pos,
        ) {
            merge_reserved(
                fresh_chunk(
                    old(world_map).reserved_view(),
                    chunk_pos,
                    *noise,
                    veins@,
                    structures_of(*noise, admitted_sites(*noise, tree_draws@), heights@),
                ),
                old(world_map).reserved_view()[chunk_pos],
            )
        } else {
            fresh_chunk(
                old(world_map).reserved_view(),
                chunk_pos,
                *noise,
                veins@,
                structures_of(*noise, admitted_sites(*noise, tree_draws@), heights@),
            )
        },
        final(world_map).chunk_entities == old(world_map).chunk_entities,
        final(world_map).water_chunk_entities == old(world_map).water_chunk_entities,
        final(world_map).spawned == old(world_map).spawned,
{
    let ghost chunks0 = world_map.chunks_view();
    let ghost reserved0 = world_map.reserved_view();
    let ghost ss = structures_of(*noise, admitted_sites(*noise, tree_draws@), heights@);
    let mut blocks = Chunk::empty();
    generate_terrain_shape(noise, &mut blocks);
    generate_terrain_cover(noise, &mut blocks);
    assert(blocks@ =~= terrain_chunk(*noise));
    apply_ore_veins(&mut blocks, veins);
    place_drawn_structures(chunk_pos, noise, &mut blocks, world_map, tree_draws, heights);
    take_reserved(world_map, chunk_pos, &mut blocks);
    let k = key_of(chunk_pos);
    let ghost chunks1 = world_map.chunks@;
    let ghost stored = blocks;
    world_map.chunks.insert(k, blocks);
    proof {
        lemma_model_insert(chunks1, chunk_pos, stored);
        assert(world_map.chunks@ == chunks1.insert(k, stored));
        lemma_world_reserved_ok(*old(world_map));
        lemma_generated_merges_own_entry(chunks0, reserved0, chunk_pos, *noise, veins@, ss);
        assert(chunks0.insert(chunk_pos, world_map.chunks_view()[chunk_pos]) =~= world_map.chunks_view());
    }
}

/// Generates chunk `chunk_pos` into the world: terrain from the noise
/// samples, ore veins drawn from a generator seeded by `ore_seed`, structure
/// thresholds and heights drawn from one seeded by the world seed, then the
/// blocks reserved for the chunk, as `generate_chunk_with` describes.
pub fn generate_chunk_data(world_map: &mut WorldMap, seed: u32, chunk_pos: (i32, i32), noise: &ChunkNoise)
    requires
        old(world_map).wf(),
        noise.wf(),
    ensures
        final(world_map).wf(),
        exists|veins: Seq<OreVein>, d: Seq<i64>, hs: Seq<i64>|
            {
                &&& veins.len() < MAX_VEINS
                &&& forall|k: int| 0 <= k < veins.len() ==> (#[trigger] veins[k]).wf()
                &&& valid_tree_draws(*noise, d)
                &&& valid_heights(*noise, admitted_sites(*noise, d), hs)
                &&& (final(world_map).chunks_view(), final(world_map).reserved_view()) == generated(
                    old(world_map).chunks_view(),
                    old(world_map).reserved_view(),
                    chunk_pos,
                    *noise,
                    veins,
                    structures_of(*noise, admitted_sites(*noise, d), hs),
                )
            },
        final(world_map).chunks_view() == old(world_map).chunks_view().insert(
            chunk_pos,
            final(world_map).chunks_view()[chunk_pos],
        ),
        !final(world_map).reserved_view().contains_key(chunk_pos),
        final(world_map).chunk_entities == old(world_map).chunk_entities,
        final(world_map).water_chunk_entities == old(world_map).water_chunk_entities,
        final(world_map).spawned == old(world_map).spawned,
{
    let mut ore_random = seeded_rng(ore_seed(seed, chunk_pos) as u64);
    let veins = draw_ore_veins(&mut ore_random);
    let mut random = seeded_rng(seed as u64);
    let tree_draws = draw_tree_thresholds(&mut random, noise);
    let sites = select_tree_sites(noise, &tree_draws);
    proof {
        lemma_sites_in_chunk(*noise, tree_draws@);
    }
    let heights = draw_structure_heights(&mut random, noise, &sites);
    generate_chunk_with(world_map, chunk_pos, noise, &veins, &tree_draws, &heights);
}

} // verus!
