use budgetcraft::block::BlockType;
use budgetcraft::chunk::{block_index, Chunk};
use budgetcraft::terrain::{ChunkNoise, ColumnNoise};
use budgetcraft::stream::{
    build_chunk, distance_between, generate_chunks_from_player_movement, materialize_chunk,
    record_chunk_spawn,
    unload_far_chunks, ChunkQueue,
};
use budgetcraft::world::{key_of, WorldMap};

#[test]
fn enqueue_ring_around_viewer() {
    let world = WorldMap::new();
    let mut q = ChunkQueue::new();
    generate_chunks_from_player_movement(&world, &mut q, (10, -4), 1);
    assert_eq!(q.queue.len(), 9);
    assert_eq!(q.queue[0], (9, -5));
    assert!(q.queue.contains(&(11, -3)));
    assert!(q.is_next_ready);
    // Enqueuing again adds nothing.
    generate_chunks_from_player_movement(&world, &mut q, (10, -4), 1);
    assert_eq!(q.queue.len(), 9);
    // Moving one chunk adds the new column only.
    generate_chunks_from_player_movement(&world, &mut q, (11, -4), 1);
    assert_eq!(q.queue.len(), 12);
    generate_chunks_from_player_movement(&world, &mut q, (0, 0), -1);
    assert_eq!(q.queue.len(), 12);
}

#[test]
fn ready_flag_lets_one_chunk_through_per_spawn() {
    let mut world = WorldMap::new();
    let mut q = ChunkQueue::new();
    generate_chunks_from_player_movement(&world, &mut q, (0, 0), 0);
    generate_chunks_from_player_movement(&world, &mut q, (5, 0), 0);
    assert_eq!(q.pop_ready(), Some((0, 0)));
    assert!(!q.is_next_ready);
    assert_eq!(q.pop_ready(), None);
    world.chunks.insert(key_of((0, 0)), Chunk::empty());
    let build = build_chunk(&mut world, (0, 0));
    assert_eq!(build.old_solid, None);
    assert_eq!(build.solid.face_count(), 0);
    record_chunk_spawn(&mut world, &mut q, (0, 0), 100, 101);
    assert!(q.is_next_ready);
    assert_eq!(world.spawned, vec![(0, 0)]);
    assert_eq!(q.pop_ready(), Some((5, 0)));
    // A spawned chunk is not enqueued again.
    generate_chunks_from_player_movement(&world, &mut q, (0, 0), 0);
    assert!(q.queue.is_empty());
}

#[test]
fn rebuilding_hands_back_old_handles() {
    let mut world = WorldMap::new();
    let mut q = ChunkQueue::new();
    world.chunks.insert(key_of((2, 3)), Chunk::empty());
    record_chunk_spawn(&mut world, &mut q, (2, 3), 7, 8);
    let build = build_chunk(&mut world, (2, 3));
    assert_eq!(build.old_solid, Some(7));
    assert_eq!(build.old_water, Some(8));
    assert!(world.spawned.is_empty());
    assert!(world.chunk_entities.is_empty());
}

#[test]
fn far_chunks_are_unloaded_and_data_kept() {
    let mut world = WorldMap::new();
    let mut q = ChunkQueue::new();
    for (i, c) in [(0, 0), (3, 0), (0, -2), (1, 1)].iter().enumerate() {
        world.chunks.insert(key_of(*c), Chunk::empty());
        record_chunk_spawn(&mut world, &mut q, *c, 10 * i as u64, 10 * i as u64 + 1);
    }
    let mut handles = unload_far_chunks(&mut world, (0, 0), 1);
    handles.sort();
    assert_eq!(handles, vec![10, 11, 20, 21]);
    assert_eq!(world.spawned, vec![(0, 0), (1, 1)]);
    assert_eq!(world.chunks.len(), 4);
    assert!(world.has_chunk((3, 0)));
    assert!(unload_far_chunks(&mut world, (0, 0), 1).is_empty());
}

#[test]
fn ring_distance() {
    assert_eq!(distance_between((0, 0), (3, -2)), 3);
    assert_eq!(distance_between((-5, 1), (-5, 1)), 0);
    assert_eq!(distance_between((i32::MIN, 0), (i32::MAX, 0)), u32::MAX as i64);
}

#[test]
fn materialize_generates_only_missing_chunks() {
    let column = ColumnNoise {
        terrain_coarse: 0,
        terrain_mid: 0,
        terrain_fine: 0,
        terrain_cover: 0,
        tree_sparse: 0,
        tree_dense: 0,
        temperature: 0,
        moisture: 0,
    };
    let noise = ChunkNoise { columns: vec![column; 64] };
    let mut world = WorldMap::new();
    let build = materialize_chunk(&mut world, 9, (4, 4), &noise);
    assert!(world.has_chunk((4, 4)));
    // Flat land: the grass top of each column is exposed.
    assert!(build.solid.face_count() >= 64);
    // A stored chunk is meshed as it is, not generated again.
    let mut kept = Chunk::empty();
    kept.set(block_index(0, 0, 0), BlockType::Sand);
    world.chunks.insert(key_of((5, 4)), kept);
    let build = materialize_chunk(&mut world, 9, (5, 4), &noise);
    assert_eq!(
        world.chunks.get(&key_of((5, 4))).unwrap().blocks.iter().filter(|b| **b != BlockType::Air).count(),
        1
    );
    assert_eq!(build.water.face_count(), 0);
}

#[test]
fn building_a_stored_chunk_merges_its_reserved_blocks() {
    let mut world = WorldMap::new();
    let mut stored = Chunk::empty();
    stored.set(block_index(1, 5, 1), BlockType::Stone);
    world.chunks.insert(key_of((2, 2)), stored);
    let mut entry = Chunk::empty();
    entry.set(block_index(1, 5, 1), BlockType::Leaves);
    entry.set(block_index(1, 6, 1), BlockType::Leaves);
    world.reserved_chunk_data.insert(key_of((2, 2)), entry);
    let build = build_chunk(&mut world, (2, 2));
    let blocks = &world.chunks.get(&key_of((2, 2))).unwrap().blocks;
    assert_eq!(blocks[block_index(1, 5, 1)], BlockType::Stone);
    assert_eq!(blocks[block_index(1, 6, 1)], BlockType::Leaves);
    assert!(world.reserved_chunk_data.is_empty());
    assert_eq!(build.solid.face_count(), 10);
}
