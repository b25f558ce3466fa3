//! Streaming chunks in and out around the viewer, one chunk materialized at
//! a time. The host runs the per-tick loop: it enqueues around the viewer,
//! pops at most one ready coordinate, materializes it (generating it when it
//! is not stored, then building its meshes), spawns the meshes, records the
//! handles (which re-arms the ready flag), and despawns what
//! `unload_far_chunks` hands back. Unloading keeps the voxel data; a chunk
//! counts as loaded while it has a spawned mesh.

use vstd::prelude::*;
use crate::world::{WorldMap, chunk_key, chunk_model, key_of, lemma_model_insert};
use crate::mesh::{MeshData, chunk_mesh, water_mesh, generate_chunk_mesh, generate_water_chunk_mesh};
use crate::terrain::ChunkNoise;
use crate::ore::{OreVein, MAX_VEINS};
use crate::generation::{
    generated, generate_chunk_data, take_reserved, merge_reserved, valid_tree_draws, valid_heights,
    admitted_sites, structures_of,
};
use crate::block::BlockType;
use crate::CHUNK_VOL;

verus! {

broadcast use vstd::std_specs::hash::group_hash_axioms;

/// Coordinates waiting to be materialized, oldest first, and the ready flag that
/// lets one through at a time.
pub struct ChunkQueue {
    pub queue: Vec<(i32, i32)>,
    pub is_next_ready: bool,
}

impl ChunkQueue {
    /// No coordinate waits twice.
    pub open spec fn wf(&self) -> bool {
        self.queue@.no_duplicates()
    }

    /// An empty queue, ready for the next chunk.
    pub fn new() -> (r: ChunkQueue)
        ensures
            r.wf(),
            r.queue@ == Seq::<(i32, i32)>::empty(),
            r.is_next_ready,
    {
        ChunkQueue { queue: Vec::new(), is_next_ready: true }
    }

    /// When the ready flag is set and a coordinate waits, takes the oldest and
    /// clears the flag; otherwise changes nothing and returns `None`.
    pub fn pop_ready(&mut self) -> (r: Option<(i32, i32)>)
        requires
            old(self).wf(),
        ensures
            final(self).wf(),
            old(self).is_next_ready && old(self).queue@.len() > 0 ==> {
                &&& r == Some(old(self).queue@[0])
                &&& final(self).queue@ == old(self).queue@.drop_first()
                &&& !final(self).is_next_ready
            },
            !(old(self).is_next_ready && old(self).queue@.len() > 0) ==> {
                &&& r is None
                &&& final(self).queue@ == old(self).queue@
                &&& final(self).is_next_ready == old(self).is_next_ready
            },
    {
        if self.is_next_ready && self.queue.len() > 0 {
            let c = self.queue.remove(0);
            self.is_next_ready = false;
            proof {
                assert(self.queue@ =~= old(self).queue@.drop_first());
                assert forall|i: int, j: int|
                    0 <= i < j < self.queue@.len() implies self.queue@[i] != self.queue@[j] by {
                    assert(self.queue@[i] == old(self).queue@[i + 1]);
                    assert(self.queue@[j] == old(self).queue@[j + 1]);
                }
            }
            Some(c)
        } else {
            None
        }
    }
}

/// Distance between two chunk coordinates, in rings: the larger of the two
/// axis distances.
pub open spec fn chunk_distance(a: (i32, i32), b: (i32, i32)) -> int {
    let dx = if a.0 >= b.0 {
        a.0 - b.0
    } else {
        b.0 - a.0
    };
    let dz = if a.1 >= b.1 {
        a.1 - b.1
    } else {
        b.1 - a.1
    };
    if dx >= dz {
        dx
    } else {
        dz
    }
}

impl WorldMap {
    /// Whether chunk c has a spawned mesh.
    pub open spec fn is_spawned(&self, c: (i32, i32)) -> bool {
        self.chunk_entities@.contains_key(chunk_key(c))
    }
}

/// Whether `q` holds c.
pub fn queue_contains(q: &Vec<(i32, i32)>, c: (i32, i32)) -> (r: bool)
    ensures
        r == q@.contains(c),
{
    let mut i: usize = 0;
    while i < q.len()
        invariant
            i <= q@.len(),
            forall|j: int| 0 <= j < i ==> q@[j] != c,
        decreases q@.len() - i,
    {
        if q[i].0 == c.0 && q[i].1 == c.1 {
            return true;
        }
        i = i + 1;
    }
    false
}

/// Appends to the queue every coordinate within `render_distance` rings of
/// the viewer that has no spawned mesh and is not queued yet.
pub fn generate_chunks_from_player_movement(
    world_map: &WorldMap,
    chunk_queue: &mut ChunkQueue,
    viewer: (i32, i32),
    render_distance: i32,
)
    requires
        world_map.wf(),
        old(chunk_queue).wf(),
    ensures
        final(chunk_queue).wf(),
        final(chunk_queue).is_next_ready == old(chunk_queue).is_next_ready,
        final(chunk_queue).queue@.len() >= old(chunk_queue).queue@.len(),
        final(chunk_queue).queue@.take(old(chunk_queue).queue@.len() as int)
            == old(chunk_queue).queue@,
        forall|c: (i32, i32)|
            #[trigger] final(chunk_queue).queue@.contains(c) <==> (old(chunk_queue).queue@.contains(c)
                || (chunk_distance(c, viewer) <= render_distance && !world_map.is_spawned(c))),
{
    let ghost start = chunk_queue.queue@;
    if render_distance < 0 {
        assert(chunk_queue.queue@.take(start.len() as int) =~= start);
        return;
    }
    let r = render_distance as i64;
    let mut dz: i64 = -r;
    while dz <= r
        invariant
            world_map.wf(),
            chunk_queue.wf(),
            chunk_queue.is_next_ready == old(chunk_queue).is_next_ready,
            start == old(chunk_queue).queue@,
            r == render_distance,
            0 <= r,
            -r <= dz <= r + 1,
            chunk_queue.queue@.len() >= start.len(),
            chunk_queue.queue@.take(start.len() as int) == start,
            forall|c: (i32, i32)|
                #[trigger] chunk_queue.queue@.contains(c) ==> (start.contains(c) || (chunk_distance(
                    c,
                    viewer,
                ) <= render_distance && !world_map.is_spawned(c))),
            forall|c: (i32, i32)|
                chunk_distance(c, viewer) <= render_distance && !world_map.is_spawned(c) && c.1
                    - viewer.1 < dz ==> #[trigger] chunk_queue.queue@.contains(c),
            forall|c: (i32, i32)| #[trigger] start.contains(c) ==> chunk_queue.queue@.contains(c),
        decreases r + 1 - dz,
    {
        let mut dx: i64 = -r;
        while dx <= r
            invariant
                world_map.wf(),
                chunk_queue.wf(),
                chunk_queue.is_next_ready == old(chunk_queue).is_next_ready,
                start == old(chunk_queue).queue@,
                r == render_distance,
                0 <= r,
                -r <= dz <= r,
                -r <= dx <= r + 1,
                chunk_queue.queue@.len() >= start.len(),
                chunk_queue.queue@.take(start.len() as int) == start,
                forall|c: (i32, i32)|
                    #[trigger] chunk_queue.queue@.contains(c) ==> (start.contains(c) || (
                    chunk_distance(c, viewer) <= render_distance && !world_map.is_spawned(c))),
                forall|c: (i32, i32)|
                    chunk_distance(c, viewer) <= render_distance && !world_map.is_spawned(c) && (c.1
                        - viewer.1 < dz || (c.1 - viewer.1 == dz && c.0 - viewer.0 < dx))
                        ==> #[trigger] chunk_queue.queue@.contains(c),
                forall|c: (i32, i32)| #[trigger] start.contains(c) ==> chunk_queue.queue@.contains(c),
            decreases r + 1 - dx,
        {
            let cx = viewer.0 as i64 + dx;
            let cz = viewer.1 as i64 + dz;
            let ghost q0 = chunk_queue.queue@;
            if cx >= i32::MIN as i64 && cx <= i32::MAX as i64 && cz >= i32::MIN as i64 && cz
                <= i32::MAX as i64 {
                let c = (cx as i32, cz as i32);
                if !world_map.chunk_entities.contains_key(&key_of(c)) && !queue_contains(
                    &chunk_queue.queue,
                    c,
                ) {
                    let ghost before = chunk_queue.queue@;
                    chunk_queue.queue.push(c);
                    assert(chunk_queue.queue@.no_duplicates()) by {
                        assert forall|a: int, b: int|
                            0 <= a < b < chunk_queue.queue@.len() implies chunk_queue.queue@[a]
                            != chunk_queue.queue@[b] by {
                            if b == before.len() {
                                assert(before[a] == chunk_queue.queue@[a]);
                            } else {
                                assert(before[a] == chunk_queue.queue@[a]);
                                assert(before[b] == chunk_queue.queue@[b]);
                            }
                        }
                    }
                    proof {
                        assert(chunk_queue.queue@ == before.push(c));
                        assert(chunk_queue.queue@.take(start.len() as int) =~= before.take(
                            start.len() as int,
                        ));
                        assert forall|d: (i32, i32)| #[trigger]
                            chunk_queue.queue@.contains(d) implies d == c || before.contains(d) by {
                            let i = choose|i: int|
                                0 <= i < chunk_queue.queue@.len() && chunk_queue.queue@[i] == d;
                            if i < before.len() {
                                assert(before[i] == d);
                            }
                        }
                        assert forall|d: (i32, i32)| #[trigger]
                            before.contains(d) implies chunk_queue.queue@.contains(d) by {
                            let i = choose|i: int| 0 <= i < before.len() && before[i] == d;
                            assert(chunk_queue.queue@[i] == d);
                        }
                        assert(chunk_queue.queue@[before.len() as int] == c);
                    }
                }
            }
            proof {
                assert forall|d: (i32, i32)|
                    chunk_distance(d, viewer) <= render_distance && !world_map.is_spawned(d) && (d.1
                        - viewer.1 < dz || (d.1 - viewer.1 == dz && d.0 - viewer.0 < dx + 1))
                        implies #[trigger] chunk_queue.queue@.contains(d) by {
                    if d.1 - viewer.1 == dz && d.0 - viewer.0 == dx {
                        assert(d == (cx as i32, cz as i32));
                    } else {
                        assert(q0.contains(d));
                    }
                }
            }
            dx = dx + 1;
        }
        dz = dz + 1;
    }
}

/// What building a chunk's meshes hands to the engine: the handles of the
/// meshes to despawn first, and the new solid and water geometry.
pub struct ChunkBuild {
    pub old_solid: Option<u64>,
    pub old_water: Option<u64>,
    pub solid: MeshData,
    pub water: MeshData,
}

/// Forgets the water mesh handle of a chunk and builds its water geometry.
pub fn build_water_chunk(world_map: &mut WorldMap, position: (i32, i32)) -> (r: (Option<u64>, MeshData))
    requires
        old(world_map).wf(),
    ensures
        final(world_map).wf(),
        r.0 == if old(world_map).water_chunk_entities@.contains_key(chunk_key(position)) {
            Some(old(world_map).water_chunk_entities@[chunk_key(position)])
        } else {
            None::<u64>
        },
        r.1@ == water_mesh(old(world_map).chunks_view(), position, CHUNK_VOL as nat),
        final(world_map).water_chunk_entities@ == old(world_map).water_chunk_entities@.remove(
            chunk_key(position),
        ),
        final(world_map).chunk_entities == old(world_map).chunk_entities,
        final(world_map).spawned == old(world_map).spawned,
        final(world_map).chunks == old(world_map).chunks,
        final(world_map).reserved_chunk_data == old(world_map).reserved_chunk_data,
{
    let old_water = world_map.water_chunk_entities.remove(&key_of(position));
    let water = generate_water_chunk_mesh(world_map, position);
    (old_water, water)
}

/// The stored chunks after the entry reserved for chunk p, when p is stored,
/// is merged into p's air cells.
pub open spec fn pending_merged(
    chunks: Map<(i32, i32), Seq<BlockType>>,
    reserved: Map<(i32, i32), Seq<BlockType>>,
    p: (i32, i32),
) -> Map<(i32, i32), Seq<BlockType>> {
    if chunks.contains_key(p) && reserved.contains_key(p) {
        chunks.insert(p, merge_reserved(chunks[p], reserved[p]))
    } else {
        chunks
    }
}

/// Merges the entry that neighbours reserved for a stored chunk into its
/// air cells and deletes the entry. A chunk that is not stored keeps its
/// entry until it is generated.
pub fn merge_pending(world_map: &mut WorldMap, position: (i32, i32))
    requires
        old(world_map).wf(),
    ensures
        final(world_map).wf(),
        final(world_map).chunks_view() == pending_merged(
            old(world_map).chunks_view(),
            old(world_map).reserved_view(),
            position,
        ),
        final(world_map).reserved_view() == if old(world_map).chunks_view().contains_key(position) {
            old(world_map).reserved_view().remove(position)
        } else {
            old(world_map).reserved_view()
        },
        final(world_map).chunk_entities == old(world_map).chunk_entities,
        final(world_map).water_chunk_entities == old(world_map).water_chunk_entities,
        final(world_map).spawned == old(world_map).spawned,
{
    let k = key_of(position);
    let ghost chunks0 = world_map.chunks@;
    match world_map.chunks.remove(&k) {
        None => {
            assert(world_map.chunks@ =~= chunks0);
        },
        Some(mut chunk) => {
            let ghost before = chunk@;
            take_reserved(world_map, position, &mut chunk);
            let ghost stored = chunk;
            world_map.chunks.insert(k, chunk);
            proof {
                lemma_model_insert(chunks0, position, stored);
                assert(chunks0.insert(k, stored) == world_map.chunks@);
                if !old(world_map).reserved_view().contains_key(position) {
                    assert(chunk_model(chunks0).insert(position, stored@) =~= chunk_model(chunks0));
                }
            }
        },
    }
}

/// Merges any blocks reserved for a stored chunk, forgets both mesh handles
/// of the chunk, and builds its solid and water geometry from the stored
/// voxels and their loaded neighbours.
pub fn build_chunk(world_map: &mut WorldMap, position: (i32, i32)) -> (r: ChunkBuild)
    requires
        old(world_map).wf(),
    ensures
        final(world_map).wf(),
        r.old_solid == if old(world_map).chunk_entities@.contains_key(chunk_key(position)) {
            Some(old(world_map).chunk_entities@[chunk_key(position)])
        } else {
            None::<u64>
        },
        r.old_water == if old(world_map).water_chunk_entities@.contains_key(chunk_key(position)) {
            Some(old(world_map).water_chunk_entities@[chunk_key(position)])
        } else {
            None::<u64>
        },
        final(world_map).chunks_view() == pending_merged(
            old(world_map).chunks_view(),
            old(world_map).reserved_view(),
            position,
        ),
        final(world_map).reserved_view() == if old(world_map).chunks_view().contains_key(position) {
            old(world_map).reserved_view().remove(position)
        } else {
            old(world_map).reserved_view()
        },
        r.solid@ == chunk_mesh(final(world_map).chunks_view(), position, CHUNK_VOL as nat),
        r.water@ == water_mesh(final(world_map).chunks_view(), position, CHUNK_VOL as nat),
        final(world_map).chunk_entities@ == old(world_map).chunk_entities@.remove(chunk_key(position)),
        final(world_map).water_chunk_entities@ == old(world_map).water_chunk_entities@.remove(
            chunk_key(position),
        ),
        forall|c: (i32, i32)|
            #[trigger] final(world_map).spawned@.contains(c) <==> (old(world_map).spawned@.contains(c)
                && c != position),
{
    merge_pending(world_map, position);
    let k = key_of(position);
    let old_solid = world_map.chunk_entities.remove(&k);
    forget_spawned(world_map, position);
    let (old_water, water) = build_water_chunk(world_map, position);
    let solid = generate_chunk_mesh(world_map, position);
    ChunkBuild { old_solid, old_water, solid, water }
}

/// Drops c from the spawned list, once its solid handle is gone.
fn forget_spawned(world_map: &mut WorldMap, c: (i32, i32))
    requires
        old(world_map).spawned@.no_duplicates(),
        !old(world_map).chunk_entities@.contains_key(chunk_key(c)),
        forall|d: (i32, i32)|
            d != c ==> (#[trigger] old(world_map).spawned@.contains(d)
                <==> old(world_map).chunk_entities@.contains_key(chunk_key(d))),
        forall|k: u64| #[trigger] old(world_map).chunks@.contains_key(k) ==> old(world_map).chunks@[k].wf(),
        forall|k: u64|
            #[trigger] old(world_map).reserved_chunk_data@.contains_key(k)
                ==> old(world_map).reserved_chunk_data@[k].wf(),
        forall|k: u64|
            #[trigger] old(world_map).reserved_chunk_data@.contains_key(k)
                ==> crate::world::only_structure_blocks(old(world_map).reserved_chunk_data@[k]@),
    ensures
        final(world_map).wf(),
        forall|d: (i32, i32)|
            #[trigger] final(world_map).spawned@.contains(d) <==> (old(world_map).spawned@.contains(d)
                && d != c),
        final(world_map).chunk_entities == old(world_map).chunk_entities,
        final(world_map).water_chunk_entities == old(world_map).water_chunk_entities,
        final(world_map).chunks == old(world_map).chunks,
        final(world_map).reserved_chunk_data == old(world_map).reserved_chunk_data,
{
    let ghost before = world_map.spawned@;
    match index_in(&world_map.spawned, c) {
        None => {},
        Some(i) => {
            world_map.spawned.remove(i);
            proof {
                let after = world_map.spawned@;
                assert(after =~= before.remove(i as int));
                assert(before[i as int] == c);
                assert forall|d: (i32, i32)| #[trigger]
                    after.contains(d) <==> (before.contains(d) && d != c) by {
                    if after.contains(d) {
                        let j = choose|j: int| 0 <= j < after.len() && after[j] == d;
                        if j < i {
                            assert(before[j] == d);
                        } else {
                            assert(before[j + 1] == d);
                        }
                    }
                    if before.contains(d) && d != c {
                        let j = choose|j: int| 0 <= j < before.len() && before[j] == d;
                        if j < i {
                            assert(after[j] == d);
                        } else {
                            assert(j != i);
                            assert(after[j - 1] == d);
                        }
                    }
                }
                assert forall|a: int, b: int| 0 <= a < b < after.len() implies after[a] != after[b] by {
                    let a0 = if a < i {
                        a
                    } else {
                        a + 1
                    };
                    let b0 = if b < i {
                        b
                    } else {
                        b + 1
                    };
                    assert(after[a] == before[a0] && after[b] == before[b0]);
                }
            }
        },
    }
}

/// Where `q` holds c, if it does.
fn index_in(q: &Vec<(i32, i32)>, c: (i32, i32)) -> (r: Option<usize>)
    ensures
        match r {
            Some(i) => i < q@.len() && q@[i as int] == c,
            None => !q@.contains(c),
        },
{
    let mut i: usize = 0;
    while i < q.len()
        invariant
            i <= q@.len(),
            forall|j: int| 0 <= j < i ==> q@[j] != c,
        decreases q@.len() - i,
    {
        if q[i].0 == c.0 && q[i].1 == c.1 {
            return Some(i);
        }
        i = i + 1;
    }
    None
}

/// Records the handles of a chunk's freshly spawned meshes and re-arms the
/// ready flag, so the next tick may materialize another chunk.
pub fn record_chunk_spawn(
    world_map: &mut WorldMap,
    chunk_queue: &mut ChunkQueue,
    position: (i32, i32),
    solid: u64,
    water: u64,
)
    requires
        old(world_map).wf(),
    ensures
        final(world_map).wf(),
        final(world_map).chunk_entities@ == old(world_map).chunk_entities@.insert(chunk_key(position), solid),
        final(world_map).water_chunk_entities@ == old(world_map).water_chunk_entities@.insert(
            chunk_key(position),
            water,
        ),
        forall|c: (i32, i32)|
            #[trigger] final(world_map).spawned@.contains(c) <==> (old(world_map).spawned@.contains(c)
                || c == position),
        final(world_map).chunks == old(world_map).chunks,
        final(world_map).reserved_chunk_data == old(world_map).reserved_chunk_data,
        final(chunk_queue).queue == old(chunk_queue).queue,
        final(chunk_queue).is_next_ready,
{
    let k = key_of(position);
    let already = world_map.chunk_entities.contains_key(&k);
    let ghost before = world_map.spawned@;
    let ghost entities0 = world_map.chunk_entities@;
    assert(before.contains(position) == already);
    world_map.chunk_entities.insert(k, solid);
    world_map.water_chunk_entities.insert(k, water);
    if !already {
        world_map.spawned.push(position);
        proof {
            let after = world_map.spawned@;
            assert(after == before.push(position));
            assert forall|d: (i32, i32)| #[trigger] after.contains(d) <==> (before.contains(d) || d == position) by {
                if after.contains(d) {
                    let j = choose|j: int| 0 <= j < after.len() && after[j] == d;
                    if j < before.len() {
                        assert(before[j] == d);
                    }
                }
                if before.contains(d) {
                    let j = choose|j: int| 0 <= j < before.len() && before[j] == d;
                    assert(after[j] == d);
                }
                if d == position {
                    assert(after[before.len() as int] == d);
                }
            }
            assert forall|a: int, b: int| 0 <= a < b < after.len() implies after[a] != after[b] by {
                if b == before.len() {
                    assert(after[a] == before[a]);
                } else {
                    assert(after[a] == before[a] && after[b] == before[b]);
                }
            }
        }
    }
    proof {
        assert forall|d: (i32, i32)| #[trigger] world_map.spawned@.contains(d) <==> (before.contains(d) || d == position) by {
        }
        assert forall|d: (i32, i32)| #[trigger] world_map.spawned@.contains(d) <==> world_map.chunk_entities@.contains_key(chunk_key(d)) by {
            if chunk_key(d) == k {
                crate::world::lemma_chunk_key_injective(d, position);
            } else {
                assert(entities0.contains_key(chunk_key(d)) == before.contains(d));
            }
        }
    }
    chunk_queue.is_next_ready = true;
}

/// Distance between two chunk coordinates, in rings.
pub fn distance_between(a: (i32, i32), b: (i32, i32)) -> (r: i64)
    ensures
        r == chunk_distance(a, b),
{
    let dx: i64 = if a.0 >= b.0 {
        a.0 as i64 - b.0 as i64
    } else {
        b.0 as i64 - a.0 as i64
    };
    let dz: i64 = if a.1 >= b.1 {
        a.1 as i64 - b.1 as i64
    } else {
        b.1 as i64 - a.1 as i64
    };
    if dx >= dz {
        dx
    } else {
        dz
    }
}

/// Unloads every spawned chunk farther than `render_distance` rings from the
/// viewer: forgets its mesh handles and returns them for despawning. The
/// voxel data stays stored, so a chunk that comes back in range is meshed
/// again without being generated again.
pub fn unload_far_chunks(world_map: &mut WorldMap, viewer: (i32, i32), render_distance: i32) -> (r: Vec<
    u64,
>)
    requires
        old(world_map).wf(),
    ensures
        final(world_map).wf(),
        forall|c: (i32, i32)|
            #[trigger] final(world_map).spawned@.contains(c) <==> (old(world_map).spawned@.contains(c)
                && chunk_distance(c, viewer) <= render_distance),
        forall|k: u64|
            #[trigger] final(world_map).chunk_entities@.contains_key(k) ==> old(
                world_map,
            ).chunk_entities@.contains_key(k) && final(world_map).chunk_entities@[k] == old(
                world_map,
            ).chunk_entities@[k],
        forall|k: u64|
            #[trigger] final(world_map).water_chunk_entities@.contains_key(k) ==> old(
                world_map,
            ).water_chunk_entities@.contains_key(k) && final(world_map).water_chunk_entities@[k]
                == old(world_map).water_chunk_entities@[k],
        forall|c: (i32, i32)|
            old(world_map).spawned@.contains(c) && chunk_distance(c, viewer) > render_distance ==> {
                &&& r@.contains(old(world_map).chunk_entities@[chunk_key(c)])
                &&& !final(world_map).water_chunk_entities@.contains_key(chunk_key(c))
                &&& old(world_map).water_chunk_entities@.contains_key(chunk_key(c)) ==> r@.contains(
                    old(world_map).water_chunk_entities@[chunk_key(c)],
                )
            },
        forall|h: u64|
            #[trigger] r@.contains(h) ==> exists|c: (i32, i32)|
                #![trigger chunk_distance(c, viewer)]
                old(world_map).spawned@.contains(c) && chunk_distance(c, viewer) > render_distance && (h
                    == old(world_map).chunk_entities@[chunk_key(c)] || (old(
                    world_map,
                ).water_chunk_entities@.contains_key(chunk_key(c)) && h == old(
                    world_map,
                ).water_chunk_entities@[chunk_key(c)])),
        final(world_map).chunks == old(world_map).chunks,
        final(world_map).reserved_chunk_data == old(world_map).reserved_chunk_data,
{
    let ghost spawned0 = world_map.spawned@;
    let ghost e0 = world_map.chunk_entities@;
    let ghost w0 = world_map.water_chunk_entities@;
    let ghost chunks0 = world_map.chunks;
    let ghost reserved0 = world_map.reserved_chunk_data;
    let mut snapshot: Vec<(i32, i32)> = Vec::new();
    let mut j: usize = 0;
    while j < world_map.spawned.len()
        invariant
            j <= world_map.spawned@.len(),
            snapshot@ =~= world_map.spawned@.take(j as int),
        decreases world_map.spawned@.len() - j,
    {
        snapshot.push(world_map.spawned[j]);
        j = j + 1;
    }
    assert(snapshot@ =~= spawned0);
    let mut handles: Vec<u64> = Vec::new();
    let mut i: usize = 0;
    while i < snapshot.len()
        invariant
            world_map.wf(),
            snapshot@ == spawned0,
            spawned0.no_duplicates(),
            forall|c: (i32, i32)| #[trigger] spawned0.contains(c) <==> e0.contains_key(chunk_key(c)),
            i <= spawned0.len(),
            world_map.chunks == chunks0,
            world_map.reserved_chunk_data == reserved0,
            forall|d: (i32, i32)|
                #[trigger] world_map.spawned@.contains(d) <==> (spawned0.contains(d) && !(chunk_distance(
                    d,
                    viewer,
                ) > render_distance && spawned0.take(i as int).contains(d))),
            forall|k: u64|
                #[trigger] world_map.chunk_entities@.contains_key(k) ==> e0.contains_key(k)
                    && world_map.chunk_entities@[k] == e0[k],
            forall|k: u64|
                #[trigger] world_map.water_chunk_entities@.contains_key(k) ==> w0.contains_key(k)
                    && world_map.water_chunk_entities@[k] == w0[k],
            forall|d: (i32, i32)|
                w0.contains_key(chunk_key(d)) && !spawned0.take(i as int).contains(d)
                    ==> #[trigger] world_map.water_chunk_entities@.contains_key(chunk_key(d)),
            forall|d: (i32, i32)|
                chunk_distance(d, viewer) > render_distance && #[trigger] spawned0.take(i as int).contains(d)
                    ==> {
                    &&& handles@.contains(e0[chunk_key(d)])
                    &&& !world_map.water_chunk_entities@.contains_key(chunk_key(d))
                    &&& w0.contains_key(chunk_key(d)) ==> handles@.contains(w0[chunk_key(d)])
                },
            forall|h: u64|
                #[trigger] handles@.contains(h) ==> exists|c: (i32, i32)|
                    #![trigger chunk_distance(c, viewer)]
                    spawned0.contains(c) && chunk_distance(c, viewer) > render_distance && (h == e0[chunk_key(
                        c,
                    )] || (w0.contains_key(chunk_key(c)) && h == w0[chunk_key(c)])),
        decreases spawned0.len() - i,
    {
        let c = snapshot[i];
        let ghost h0 = handles@;
        assert(spawned0.take(i as int + 1) =~= spawned0.take(i as int).push(c));
        assert(spawned0.contains(c));
        assert(!spawned0.take(i as int).contains(c)) by {
            if spawned0.take(i as int).contains(c) {
                let j = choose|j: int| 0 <= j < i && #[trigger] spawned0.take(i as int)[j] == c;
                assert(spawned0[j] == spawned0[i as int]);
            }
        }
        if distance_between(c, viewer) > render_distance as i64 {
            let k = key_of(c);
            assert(world_map.spawned@.contains(c));
            let solid = world_map.chunk_entities.remove(&k);
            match solid {
                Some(h) => {
                    handles.push(h);
                },
                None => {},
            }
            let water = world_map.water_chunk_entities.remove(&k);
            match water {
                Some(h) => {
                    handles.push(h);
                },
                None => {},
            }
            proof {
                assert forall|d: (i32, i32)|
                    d != c implies (#[trigger] world_map.spawned@.contains(d)
                    <==> world_map.chunk_entities@.contains_key(chunk_key(d))) by {
                    if chunk_key(d) == k {
                        crate::world::lemma_chunk_key_injective(d, c);
                    }
                }
            }
            forget_spawned(world_map, c);
            proof {
                assert forall|d: (i32, i32)|
                    w0.contains_key(chunk_key(d)) && !spawned0.take(i as int + 1).contains(d)
                        implies #[trigger] world_map.water_chunk_entities@.contains_key(chunk_key(d)) by {
                    if chunk_key(d) == k {
                        crate::world::lemma_chunk_key_injective(d, c);
                        assert(spawned0.take(i as int + 1)[i as int] == c);
                    }
                    assert(!spawned0.take(i as int).contains(d)) by {
                        if spawned0.take(i as int).contains(d) {
                            let j = choose|j: int| 0 <= j < i && #[trigger] spawned0.take(i as int)[j] == d;
                            assert(spawned0.take(i as int + 1)[j] == d);
                        }
                    }
                }
                assert forall|x: u64| #[trigger] h0.contains(x) implies handles@.contains(x) by {
                    let j = choose|j: int| 0 <= j < h0.len() && h0[j] == x;
                    assert(handles@[j] == x);
                }
                assert forall|x: u64| #[trigger] handles@.contains(x) implies h0.contains(x) || x
                    == e0[k] || (w0.contains_key(k) && x == w0[k]) by {
                    let j = choose|j: int| 0 <= j < handles@.len() && handles@[j] == x;
                    if j < h0.len() {
                        assert(h0[j] == x);
                    }
                }
                assert(handles@.contains(e0[k])) by {
                    let j = h0.len() as int;
                    assert(handles@[j] == e0[k]);
                }
                if w0.contains_key(k) {
                    assert(handles@.contains(w0[k])) by {
                        let j = handles@.len() - 1;
                        assert(handles@[j] == w0[k]);
                    }
                }
                assert forall|x: u64| #[trigger] handles@.contains(x) implies exists|c2: (i32, i32)|
                    #![trigger chunk_distance(c2, viewer)]
                    spawned0.contains(c2) && chunk_distance(c2, viewer) > render_distance && (x
                        == e0[chunk_key(c2)] || (w0.contains_key(chunk_key(c2)) && x == w0[chunk_key(
                        c2,
                    )])) by {
                    if !h0.contains(x) {
                        assert(chunk_distance(c, viewer) > render_distance);
                    }
                }
                assert forall|d: (i32, i32)|
                    chunk_distance(d, viewer) > render_distance && #[trigger] spawned0.take(
                        i as int + 1,
                    ).contains(d) implies {
                    &&& handles@.contains(e0[chunk_key(d)])
                    &&& !world_map.water_chunk_entities@.contains_key(chunk_key(d))
                    &&& w0.contains_key(chunk_key(d)) ==> handles@.contains(w0[chunk_key(d)])
                } by {
                    if d != c {
                        assert(spawned0.take(i as int).contains(d)) by {
                            let j = choose|j: int| 0 <= j < i + 1 && #[trigger] spawned0.take(i as int + 1)[j] == d;
                            assert(spawned0.take(i as int)[j] == d);
                        }
                    }
                }
            }
        } else {
            proof {
                assert forall|d: (i32, i32)|
                    w0.contains_key(chunk_key(d)) && !spawned0.take(i as int + 1).contains(d)
                        implies #[trigger] world_map.water_chunk_entities@.contains_key(chunk_key(d)) by {
                    assert(!spawned0.take(i as int).contains(d)) by {
                        if spawned0.take(i as int).contains(d) {
                            let j = choose|j: int| 0 <= j < i && #[trigger] spawned0.take(i as int)[j] == d;
                            assert(spawned0.take(i as int + 1)[j] == d);
                        }
                    }
                }
                assert forall|d: (i32, i32)|
                    chunk_distance(d, viewer) > render_distance && #[trigger] spawned0.take(
                        i as int + 1,
                    ).contains(d) implies spawned0.take(i as int).contains(d) by {
                    let j = choose|j: int| 0 <= j < i + 1 && #[trigger] spawned0.take(i as int + 1)[j] == d;
                    if j < i {
                        assert(spawned0.take(i as int)[j] == d);
                    }
                }
            }
        }
        proof {
            assert forall|d: (i32, i32)|
                #[trigger] world_map.spawned@.contains(d) <==> (spawned0.contains(d) && !(chunk_distance(
                    d,
                    viewer,
                ) > render_distance && spawned0.take(i as int + 1).contains(d))) by {
                if d != c {
                    assert(spawned0.take(i as int + 1).contains(d) == spawned0.take(i as int).contains(d)) by {
                        if spawned0.take(i as int + 1).contains(d) {
                            let j = choose|j: int| 0 <= j < i + 1 && #[trigger] spawned0.take(i as int + 1)[j] == d;
                            assert(spawned0.take(i as int)[j] == d);
                        }
                        if spawned0.take(i as int).contains(d) {
                            let j = choose|j: int| 0 <= j < i && #[trigger] spawned0.take(i as int)[j] == d;
                            assert(spawned0.take(i as int + 1)[j] == d);
                        }
                    }
                } else {
                    assert(spawned0.take(i as int + 1)[i as int] == c);
                }
            }
        }
        i = i + 1;
    }
    assert(spawned0.take(i as int) =~= spawned0);
    handles
}

/// Materializes a chunk popped from the queue: generates it from the noise
/// samples when it is not stored yet, then builds its meshes as
/// `build_chunk` does.
pub fn materialize_chunk(
    world_map: &mut WorldMap,
    seed: u32,
    position: (i32, i32),
    noise: &ChunkNoise,
) -> (r: ChunkBuild)
    requires
        old(world_map).wf(),
        noise.wf(),
    ensures
        final(world_map).wf(),
        old(world_map).chunks_view().contains_key(position) ==> {
            &&& final(world_map).chunks_view() == pending_merged(
                old(world_map).chunks_view(),
                old(world_map).reserved_view(),
                position,
            )
            &&& final(world_map).reserved_view() == old(world_map).reserved_view().remove(position)
        },
        !old(world_map).chunks_view().contains_key(position) ==> exists|
            veins: Seq<OreVein>,
            d: Seq<i64>,
            hs: Seq<i64>,
        |
            {
                &&& veins.len() < MAX_VEINS
                &&& forall|k: int| 0 <= k < veins.len() ==> (#[trigger] veins[k]).wf()
                &&& valid_tree_draws(*noise, d)
                &&& valid_heights(*noise, admitted_sites(*noise, d), hs)
                &&& (final(world_map).chunks_view(), final(world_map).reserved_view()) == generated(
                    old(world_map).chunks_view(),
                    old(world_map).reserved_view(),
                    position,
                    *noise,
                    veins,
                    structures_of(*noise, admitted_sites(*noise, d), hs),
                )
            },
        r.old_solid == if old(world_map).chunk_entities@.contains_key(chunk_key(position)) {
            Some(old(world_map).chunk_entities@[chunk_key(position)])
        } else {
            None::<u64>
        },
        r.old_water == if old(world_map).water_chunk_entities@.contains_key(chunk_key(position)) {
            Some(old(world_map).water_chunk_entities@[chunk_key(position)])
        } else {
            None::<u64>
        },
        r.solid@ == chunk_mesh(final(world_map).chunks_view(), position, CHUNK_VOL as nat),
        r.water@ == water_mesh(final(world_map).chunks_view(), position, CHUNK_VOL as nat),
        final(world_map).chunk_entities@ == old(world_map).chunk_entities@.remove(chunk_key(position)),
        final(world_map).water_chunk_entities@ == old(world_map).water_chunk_entities@.remove(
            chunk_key(position),
        ),
        forall|c: (i32, i32)|
            #[trigger] final(world_map).spawned@.contains(c) <==> (old(world_map).spawned@.contains(c)
                && c != position),
{
    if !world_map.has_chunk(position) {
        generate_chunk_data(world_map, seed, position, noise);
        let ghost mid_chunks = world_map.chunks_view();
        let ghost mid_reserved = world_map.reserved_view();
        let r = build_chunk(world_map, position);
        assert(world_map.chunks_view() =~= mid_chunks);
        assert(world_map.reserved_view() =~= mid_reserved);
        r
    } else {
        build_chunk(world_map, position)
    }
}

} // verus!
