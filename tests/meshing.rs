use budgetcraft::block::BlockType;
use budgetcraft::chunk::{block_index, Chunk};
use budgetcraft::mesh::{
    ao_value, calculate_ao, generate_block, generate_chunk_mesh, generate_water_block,
    generate_water_chunk_mesh, side_ao, add_indices, MeshData,
};
use budgetcraft::block::Side;
use budgetcraft::world::{block_at_position, key_of, WorldMap, FALLBACK_BLOCK};
use budgetcraft::CHUNK_VOL;

fn world_with(c: (i32, i32), chunk: Chunk) -> WorldMap {
    let mut w = WorldMap::new();
    w.chunks.insert(key_of(c), chunk);
    w
}

fn filled(b: BlockType) -> Chunk {
    let mut c = Chunk::empty();
    for i in 0..CHUNK_VOL {
        c.set(i, b);
    }
    c
}

const A: BlockType = BlockType::Air;
const S: BlockType = BlockType::Stone;

#[test]
fn ao_value_truth_table() {
    assert_eq!(ao_value(true, true, true), 0);
    assert_eq!(ao_value(true, false, true), 0);
    assert_eq!(ao_value(true, true, false), 1);
    assert_eq!(ao_value(false, true, true), 1);
    assert_eq!(ao_value(false, false, false), 3);
    assert_eq!(ao_value(true, false, false), 2);
    assert_eq!(ao_value(false, false, true), 2);
    assert_eq!(ao_value(false, true, false), 2);
}

#[test]
fn side_ao_all_opaque_ring_is_quarter_bright() {
    assert_eq!(side_ao([S; 8]), [1, 1, 1, 1]);
}

#[test]
fn side_ao_all_transparent_ring_is_full_bright() {
    assert_eq!(side_ao([A; 8]), [4, 4, 4, 4]);
    assert_eq!(side_ao([BlockType::Water; 8]), [4, 4, 4, 4]);
}

#[test]
fn side_ao_mixed_patterns() {
    // Only cell 0 open: corner 0 = ao(n6,n7,n0)=ao(F,F,T)=2, corner 1 = ao(F,F,F)=3,
    // corner 2 = ao(F,F,F)=3, corner 3 = ao(n0,n1,n2)=ao(T,F,F)=2.
    assert_eq!(side_ao([A, S, S, S, S, S, S, S]), [2, 1, 1, 2]);
    // Edge cells open, diagonals closed: every corner has both sides open.
    assert_eq!(side_ao([A, S, A, S, A, S, A, S]), [4, 4, 4, 4]);
    // Diagonals open, edges closed: level 2 everywhere.
    assert_eq!(side_ao([S, A, S, A, S, A, S, A]), [2, 2, 2, 2]);
    // Cells 6, 7 open: corner 0 = ao(T,T,F)=1, corner 1 = ao(F,F,T)=2,
    // corner 2 = ao(F,F,F)=3, corner 3 = ao(F,F,F)=3.
    assert_eq!(side_ao([S, S, S, S, S, S, A, A]), [3, 2, 1, 1]);
    // Cells 0, 1 open: corner 0 = ao(F,F,T)=2, corner 3 = ao(T,T,F)=1.
    assert_eq!(side_ao([A, A, S, S, S, S, S, S]), [2, 1, 1, 3]);
    // Only cell 3 open, a diagonal: corner 2 = ao(F,T,F)=2.
    assert_eq!(side_ao([S, S, S, A, S, S, S, S]), [1, 1, 2, 1]);
}

#[test]
fn add_indices_makes_two_triangles() {
    let mut v = vec![9];
    add_indices(&mut v, 4);
    assert_eq!(v, vec![9, 4, 5, 6, 4, 6, 7]);
}

#[test]
fn air_chunk_emits_no_faces() {
    let w = world_with((0, 0), Chunk::empty());
    let solid = generate_chunk_mesh(&w, (0, 0));
    let water = generate_water_chunk_mesh(&w, (0, 0));
    assert_eq!(solid.face_count(), 0);
    assert!(solid.indices.is_empty() && solid.colors.is_empty() && solid.uvs.is_empty());
    assert_eq!(water.face_count(), 0);
    assert!(water.indices.is_empty());
}

#[test]
fn interior_stone_emits_no_faces() {
    let w = world_with((0, 0), filled(S));
    let mut mesh = MeshData::new();
    generate_block(&mut mesh, &w, (3, 100, 4), (0, 0));
    assert_eq!(mesh.face_count(), 0);
    assert!(mesh.positions.is_empty());
}

#[test]
fn lone_stone_emits_six_lit_faces() {
    let mut c = Chunk::empty();
    c.set(block_index(3, 10, 4), S);
    let w = world_with((0, 0), c);
    let mut mesh = MeshData::new();
    generate_block(&mut mesh, &w, (3, 10, 4), (0, 0));
    assert_eq!(mesh.face_count(), 6);
    assert_eq!(mesh.indices.len(), 36);
    assert!(mesh.colors.iter().all(|c| *c == 4));
    // The first face is the +x face, corners in eighths of a block.
    assert_eq!(
        &mesh.positions[0..4],
        &[(32, 88, 32), (32, 88, 40), (32, 80, 40), (32, 80, 32)]
    );
    // Its texture is the stone tile.
    assert_eq!(&mesh.uvs[0..4], &[(3, 0), (4, 0), (4, 1), (3, 1)]);
    assert_eq!(&mesh.indices[6..12], &[4, 5, 6, 4, 6, 7]);
}

#[test]
fn face_corner_darkened_by_neighbours() {
    // Stone at (3,10,4) with stone above-right (4,11,4): the +x face sees
    // an opaque cell at ring slot 6 (x+1, y+1, z).
    let mut c = Chunk::empty();
    c.set(block_index(3, 10, 4), S);
    c.set(block_index(4, 11, 4), S);
    let w = world_with((0, 0), c);
    let light = calculate_ao(&w, (3, 10, 4), (0, 0), Side::Right);
    assert_eq!(light, [3, 3, 4, 4]);
}

#[test]
fn chunk_floor_faces_against_fallback_are_culled() {
    // A single stone at y = 0: the face below looks at the fallback block.
    let mut c = Chunk::empty();
    c.set(block_index(0, 0, 0), S);
    let w = world_with((0, 0), c);
    let mut mesh = MeshData::new();
    generate_block(&mut mesh, &w, (0, 0, 0), (0, 0));
    // -x and -z look into chunks that are not loaded, -y is below the world.
    assert_eq!(mesh.face_count(), 3);
}

#[test]
fn water_surface_is_lowered_by_an_eighth() {
    let mut c = Chunk::empty();
    c.set(block_index(2, 61, 2), BlockType::Water);
    c.set(block_index(2, 62, 2), BlockType::Water);
    let w = world_with((0, 0), c);
    let mut lower = MeshData::new();
    generate_water_block(&mut lower, &w, (2, 61, 2), (0, 0));
    assert_eq!(lower.face_count(), 0);
    let mut top = MeshData::new();
    generate_water_block(&mut top, &w, (2, 62, 2), (0, 0));
    assert_eq!(top.face_count(), 1);
    assert_eq!(top.positions, vec![(24, 503, 24), (24, 503, 16), (16, 503, 16), (16, 503, 24)]);
    assert!(top.colors.is_empty());
    let whole = generate_water_chunk_mesh(&w, (0, 0));
    assert_eq!(whole.face_count(), 1);
    // Water is never part of the solid geometry.
    assert_eq!(generate_chunk_mesh(&w, (0, 0)).face_count(), 0);
}

#[test]
fn lookup_outside_world_is_fallback() {
    let w = world_with((0, 0), Chunk::empty());
    assert_eq!(block_at_position(&w, (3, -1, 3), (0, 0)), FALLBACK_BLOCK);
    assert_eq!(block_at_position(&w, (3, 257, 3), (0, 0)), FALLBACK_BLOCK);
    assert_eq!(block_at_position(&w, (3, 256, 3), (0, 0)), FALLBACK_BLOCK);
    assert_eq!(block_at_position(&w, (-1, 5, 3), (0, 0)), FALLBACK_BLOCK);
    assert!(!FALLBACK_BLOCK.is_transparent());
    assert_eq!(block_at_position(&w, (3, 5, 3), (0, 0)), BlockType::Air);
}

#[test]
fn lookup_reaches_into_loaded_neighbours() {
    let mut west = Chunk::empty();
    west.set(block_index(7, 5, 3), BlockType::Sand);
    let mut w = world_with((0, 0), Chunk::empty());
    w.chunks.insert(key_of((-1, 0)), west);
    assert_eq!(block_at_position(&w, (-1, 5, 3), (0, 0)), BlockType::Sand);
    assert_eq!(block_at_position(&w, (7, 5, 3), (-1, 0)), BlockType::Sand);
    assert_eq!(block_at_position(&w, (-1, 5, 8), (0, 0)), FALLBACK_BLOCK);
    assert_eq!(block_at_position(&w, (15, 5, 3), (-2, 0)), BlockType::Sand);
}

#[test]
fn bottom_face_corners_take_their_own_shade() {
    // Stone at (3,10,4) and at (2,9,4): the cell below-left touches the
    // two bottom corners at x = 3.
    let mut c = Chunk::empty();
    c.set(block_index(3, 10, 4), S);
    c.set(block_index(2, 9, 4), S);
    let w = world_with((0, 0), c);
    assert_eq!(calculate_ao(&w, (3, 10, 4), (0, 0), Side::Bottom), [3, 4, 4, 3]);
    let mut mesh = MeshData::new();
    generate_block(&mut mesh, &w, (3, 10, 4), (0, 0));
    assert_eq!(mesh.face_count(), 6);
    assert_eq!(
        &mesh.positions[16..20],
        &[(24, 80, 32), (32, 80, 32), (32, 80, 40), (24, 80, 40)]
    );
    assert_eq!(&mesh.colors[16..20], &[3, 4, 4, 3]);
}
