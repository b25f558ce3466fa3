use noise::NoiseFn;
use rand::rngs::StdRng;
use rand::SeedableRng;
use budgetcraft::block::BlockType;
use budgetcraft::chunk::{block_index, Chunk};
use budgetcraft::generation::{
    build_structures, draw_structure_heights, draw_tree_thresholds, generate_chunk_data,
    generate_chunk_with, ore_seed, select_tree_sites, take_reserved, tree_candidate_cells,
};
use budgetcraft::ore::{apply_ore_vein, draw_ore_veins, generate_ore, Axis, OreStep, OreVein};
use budgetcraft::structures::{place_structures, structure_writes_of, Structure, StructureKind};
use budgetcraft::terrain::{
    cover_block_at, generate_terrain_cover, generate_terrain_shape, height_by_coords,
    humidity_at, temperature_at, ChunkNoise, ColumnNoise,
};
use budgetcraft::world::{channel_seeds, key_of, SeededPerlin, WorldMap};
use budgetcraft::{CHUNK_HEIGHT, CHUNK_VOL, CHUNK_WIDTH};

fn sample(p: &noise::Perlin, x: f64, z: f64, scale: f64) -> i32 {
    (p.get([x * scale, z * scale]) * 1_000_000.0).round() as i32
}

fn chunk_noise(perlin: &SeededPerlin, c: (i32, i32)) -> ChunkNoise {
    let mut columns = Vec::new();
    for z in 0..CHUNK_WIDTH {
        for x in 0..CHUNK_WIDTH {
            let wx = x as f64 + c.0 as f64 * CHUNK_WIDTH as f64;
            let wz = z as f64 + c.1 as f64 * CHUNK_WIDTH as f64;
            columns.push(ColumnNoise {
                terrain_coarse: sample(&perlin.terrain_noise, wx, wz, 0.001),
                terrain_mid: sample(&perlin.terrain_noise, wx, wz, 0.01),
                terrain_fine: sample(&perlin.terrain_noise, wx, wz, 0.06),
                terrain_cover: sample(&perlin.terrain_noise, wx, wz, 0.05),
                tree_sparse: sample(&perlin.tree_noise, wx, wz, 0.1),
                tree_dense: sample(&perlin.tree_noise, wx, wz, 0.03),
                temperature: sample(&perlin.temperature_noise, wx, wz, 0.001),
                moisture: sample(&perlin.moisture_noise, wx, wz, 0.001),
            });
        }
    }
    ChunkNoise { columns }
}

fn flat(v: i32) -> ColumnNoise {
    ColumnNoise {
        terrain_coarse: v,
        terrain_mid: 0,
        terrain_fine: 0,
        terrain_cover: 0,
        tree_sparse: 0,
        tree_dense: 0,
        temperature: 0,
        moisture: 0,
    }
}

fn uniform(c: ColumnNoise) -> ChunkNoise {
    ChunkNoise { columns: vec![c; CHUNK_WIDTH * CHUNK_WIDTH] }
}

fn stored(w: &WorldMap, c: (i32, i32)) -> Vec<BlockType> {
    w.chunks.get(&key_of(c)).unwrap().blocks.clone()
}

#[test]
fn heights_follow_the_octave_formula() {
    assert_eq!(height_by_coords(&flat(0)), (60, 64));
    // 30 * 0.5 = 15.
    assert_eq!(height_by_coords(&flat(500_000)), (75, 79));
    // 30 * -0.333333 = -9.99999, floored to -10.
    assert_eq!(height_by_coords(&flat(-333_333)), (50, 54));
    let c = ColumnNoise { terrain_mid: 250_000, terrain_fine: 500_000, terrain_cover: -500_000, ..flat(100_000) };
    // stone: 3 + 2.5 + 2 = 7.5 -> 67; cover: 3 + 2.5 - 1 = 4.5 -> 68.
    assert_eq!(height_by_coords(&c), (67, 68));
}

#[test]
fn climate_is_ten_times_the_channel() {
    let c = ColumnNoise { temperature: 80_000, moisture: -12_345, ..flat(0) };
    assert_eq!(temperature_at(&c), 800_000);
    assert_eq!(humidity_at(&c), -123_450);
}

#[test]
fn cover_classification() {
    // stone height 60, cover height 64.
    let plain = flat(0);
    assert_eq!(cover_block_at(&plain, 64), BlockType::Grass);
    assert_eq!(cover_block_at(&plain, 63), BlockType::Dirt);
    assert_eq!(cover_block_at(&plain, 65), BlockType::Air);
    let desert = ColumnNoise { temperature: 80_000, moisture: 0, ..flat(0) };
    assert_eq!(cover_block_at(&desert, 64), BlockType::Sand);
    assert_eq!(cover_block_at(&desert, 62), BlockType::Sand);
    assert_eq!(cover_block_at(&desert, 61), BlockType::Dirt);
    // Low land: stone height 50, cover height 54, water up to sea level.
    let low = flat(-333_333);
    assert_eq!(cover_block_at(&low, 54), BlockType::Dirt);
    assert_eq!(cover_block_at(&low, 55), BlockType::Water);
    assert_eq!(cover_block_at(&low, 62), BlockType::Water);
    assert_eq!(cover_block_at(&low, 63), BlockType::Air);
}

#[test]
fn shape_and_cover_passes() {
    let noise = uniform(flat(0));
    let mut c = Chunk::empty();
    generate_terrain_shape(&noise, &mut c);
    assert_eq!(c.get(block_index(1, 0, 1)), BlockType::BedRock);
    assert_eq!(c.get(block_index(1, 59, 1)), BlockType::Stone);
    assert_eq!(c.get(block_index(1, 60, 1)), BlockType::Air);
    generate_terrain_cover(&noise, &mut c);
    assert_eq!(c.get(block_index(1, 0, 1)), BlockType::BedRock);
    assert_eq!(c.get(block_index(1, 59, 1)), BlockType::Stone);
    assert_eq!(c.get(block_index(1, 60, 1)), BlockType::Dirt);
    assert_eq!(c.get(block_index(1, 64, 1)), BlockType::Grass);
    assert_eq!(c.get(block_index(1, 65, 1)), BlockType::Air);
}

#[test]
fn ore_vein_walks_through_stone_only() {
    let mut c = Chunk::empty();
    for i in 0..CHUNK_VOL {
        c.set(i, BlockType::Stone);
    }
    c.set(block_index(4, 10, 3), BlockType::Dirt);
    let start = block_index(2, 10, 3);
    let vein = OreVein {
        start,
        steps: vec![
            OreStep { axis: Axis::X, backward: false },
            OreStep { axis: Axis::X, backward: false },
            OreStep { axis: Axis::Y, backward: false },
            OreStep { axis: Axis::Z, backward: true },
        ],
    };
    apply_ore_vein(&mut c, &vein);
    assert_eq!(c.get(start), BlockType::OreStoneGold);
    assert_eq!(c.get(block_index(3, 10, 3)), BlockType::OreStoneGold);
    assert_eq!(c.get(block_index(4, 10, 3)), BlockType::Dirt);
    assert_eq!(c.get(block_index(4, 11, 3)), BlockType::OreStoneGold);
    assert_eq!(c.get(block_index(4, 11, 2)), BlockType::OreStoneGold);
    let ores = c.blocks.iter().filter(|b| **b == BlockType::OreStoneGold).count();
    assert_eq!(ores, 4);
}

#[test]
fn ore_vein_on_non_stone_is_abandoned() {
    let mut c = Chunk::empty();
    let vein = OreVein { start: 5, steps: vec![OreStep { axis: Axis::X, backward: false }] };
    apply_ore_vein(&mut c, &vein);
    assert!(c.blocks.iter().all(|b| *b == BlockType::Air));
}

#[test]
fn ore_walk_wraps_on_the_linear_index() {
    let mut c = Chunk::empty();
    for i in 0..CHUNK_VOL {
        c.set(i, BlockType::Stone);
    }
    // One step +x from x = 7 lands on x = 0 of the next row.
    let vein = OreVein { start: block_index(7, 5, 0), steps: vec![OreStep { axis: Axis::X, backward: false }] };
    apply_ore_vein(&mut c, &vein);
    assert_eq!(c.get(block_index(0, 6, 0)), BlockType::OreStoneGold);
    // A step below index 0 is dropped.
    let mut d = Chunk::empty();
    d.set(0, BlockType::Stone);
    d.set(1, BlockType::Stone);
    let vein = OreVein { start: 0, steps: vec![OreStep { axis: Axis::Z, backward: true }] };
    apply_ore_vein(&mut d, &vein);
    assert_eq!(d.get(0), BlockType::OreStoneGold);
    assert_eq!(d.get(1), BlockType::Stone);
}

#[test]
fn drawn_veins_stay_in_range() {
    for seed in 0..20u64 {
        let mut rng = StdRng::seed_from_u64(seed);
        let veins = draw_ore_veins(&mut rng);
        assert!(veins.len() < 50);
        for v in &veins {
            assert!(v.start < CHUNK_VOL);
            assert!(!v.steps.is_empty() && v.steps.len() <= 6);
        }
    }
    let mut rng = StdRng::seed_from_u64(7);
    let mut c = Chunk::empty();
    for i in 0..CHUNK_VOL {
        c.set(i, BlockType::Stone);
    }
    let mut total = 0;
    for _ in 0..10 {
        generate_ore(&mut rng, &mut c);
        total = c.blocks.iter().filter(|b| **b == BlockType::OreStoneGold).count();
    }
    assert!(total > 0);
}

#[test]
fn seeds_wrap() {
    assert_eq!(channel_seeds(7), (7, 14, 27, 37));
    assert_eq!(channel_seeds(u32::MAX), (u32::MAX, u32::MAX - 1, 19, 29));
    assert_eq!(ore_seed(42, (3, -1)), 44);
    assert_eq!(ore_seed(0, (-1, 0)), u32::MAX);
    let p = SeededPerlin::new(42);
    assert_eq!(p.seed, 42);
    assert_eq!((p.terrain_seed, p.tree_seed, p.temperature_seed, p.moisture_seed), (42, 84, 62, 72));
}

#[test]
fn tree_writes_shape() {
    let tree = Structure { x: 3, y: 64, z: 3, kind: StructureKind::Tree, height: 4 };
    let w = structure_writes_of(&tree);
    assert_eq!(w.len(), 4 + 25 + 25 + 9);
    assert_eq!((w[0].x, w[0].y, w[0].z, w[0].block), (3, 65, 3, BlockType::Wood));
    assert_eq!((w[3].x, w[3].y, w[3].z), (3, 68, 3));
    assert_eq!((w[4].x, w[4].y, w[4].z, w[4].block), (1, 67, 1, BlockType::Leaves));
    assert_eq!((w[4 + 14].x, w[4 + 14].z), (5, 3));
    assert_eq!((w[62].x, w[62].y, w[62].z), (4, 69, 4));
    let cactus = Structure { x: 0, y: 70, z: 7, kind: StructureKind::Cactus, height: 3 };
    let w = structure_writes_of(&cactus);
    assert_eq!(w.len(), 3);
    assert!(w.iter().all(|b| b.block == BlockType::Cactus && b.x == 0 && b.z == 7));
}

#[test]
fn canopy_crossing_into_missing_chunk_is_reserved_then_merged() {
    let mut world = WorldMap::new();
    let mut blocks = Chunk::empty();
    let tree = Structure { x: 7, y: 64, z: 3, kind: StructureKind::Tree, height: 4 };
    place_structures(&mut blocks, &mut world, (0, 0), &vec![tree]);
    assert_eq!(blocks.get(block_index(7, 65, 3)), BlockType::Wood);
    let reserved = world.reserved_chunk_data.get(&key_of((1, 0))).expect("reserved entry");
    assert_eq!(reserved.get(block_index(0, 67, 3)), BlockType::Leaves);
    assert_eq!(reserved.get(block_index(1, 67, 3)), BlockType::Leaves);
    assert_eq!(reserved.get(block_index(2, 67, 3)), BlockType::Air);
    let reserved_cells: Vec<(usize, BlockType)> = reserved
        .blocks
        .iter()
        .cloned()
        .enumerate()
        .filter(|(_, b)| *b != BlockType::Air)
        .collect();
    assert!(!reserved_cells.is_empty());

    // Generating the neighbour over flat land copies the reserved cells
    // into its air and deletes the entry.
    let noise = uniform(flat(0));
    generate_chunk_data(&mut world, 42, (1, 0), &noise);
    assert!(world.reserved_chunk_data.get(&key_of((1, 0))).is_none());
    let east = stored(&world, (1, 0));
    for (i, b) in &reserved_cells {
        assert_eq!(east[*i], *b);
    }
    assert_eq!(east[block_index(0, 0, 0)], BlockType::BedRock);
    assert_eq!(east[block_index(0, 64, 0)], BlockType::Grass);
}

#[test]
fn writes_into_a_stored_neighbour_are_reserved_too() {
    let mut world = WorldMap::new();
    world.chunks.insert(key_of((1, 0)), Chunk::empty());
    let mut blocks = Chunk::empty();
    let tree = Structure { x: 7, y: 64, z: 3, kind: StructureKind::Tree, height: 4 };
    place_structures(&mut blocks, &mut world, (0, 0), &vec![tree]);
    assert!(stored(&world, (1, 0)).iter().all(|b| *b == BlockType::Air));
    let reserved = world.reserved_chunk_data.get(&key_of((1, 0))).expect("reserved entry");
    assert_eq!(reserved.get(block_index(0, 67, 3)), BlockType::Leaves);
}

#[test]
fn reserved_blocks_never_overwrite_terrain() {
    let mut world = WorldMap::new();
    let mut entry = Chunk::empty();
    entry.set(block_index(1, 64, 1), BlockType::Leaves);
    entry.set(block_index(1, 65, 1), BlockType::Leaves);
    world.reserved_chunk_data.insert(key_of((5, 5)), entry);
    let mut blocks = Chunk::empty();
    blocks.set(block_index(1, 64, 1), BlockType::Grass);
    take_reserved(&mut world, (5, 5), &mut blocks);
    assert_eq!(blocks.get(block_index(1, 64, 1)), BlockType::Grass);
    assert_eq!(blocks.get(block_index(1, 65, 1)), BlockType::Leaves);
    assert!(world.reserved_chunk_data.is_empty());
}

#[test]
fn structures_follow_the_climate() {
    let perlin = SeededPerlin::new(42);
    let mut hot = chunk_noise(&perlin, (0, 0));
    for c in hot.columns.iter_mut() {
        c.temperature = 100_000;
        c.moisture = 0;
        c.tree_sparse = 990_000;
    }
    let mut rng = StdRng::seed_from_u64(1);
    let draws = draw_tree_thresholds(&mut rng, &hot);
    assert_eq!(draws.len(), tree_candidate_cells(&hot).len());
    assert!(draws.iter().all(|d| -1_000_000 <= *d && *d < 990_000));
    let sites = select_tree_sites(&hot, &draws);
    let heights = draw_structure_heights(&mut rng, &hot, &sites);
    let structures = build_structures(&hot, &sites, &heights);
    assert_eq!(structures.len(), sites.len());
    for s in &structures {
        assert_eq!(s.kind, StructureKind::Cactus);
        assert!(2 <= s.height && s.height < 5);
    }
}

#[test]
fn site_selection_follows_the_thresholds() {
    // Flat land: every column has one grass candidate, at y = 64.
    let noise = uniform(ColumnNoise { tree_dense: 700_000, ..flat(0) });
    let cands = tree_candidate_cells(&noise);
    assert_eq!(cands.len(), 64);
    assert_eq!(cands[0], (0, 64, 0));
    assert_eq!(cands[9], (1, 64, 1));
    // Admitted where the threshold exceeds 0.6.
    let mut draws = vec![0i64; 64];
    draws[3] = 600_001;
    draws[10] = 650_000;
    draws[11] = 600_000;
    assert_eq!(select_tree_sites(&noise, &draws), vec![(3, 64, 0), (2, 64, 1)]);
    // A tree value of 0.2 or less admits nothing.
    let low = uniform(ColumnNoise { tree_dense: 200_000, ..flat(0) });
    assert!(select_tree_sites(&low, &vec![999_999i64; 64]).is_empty());
    // Structures on the admitted sites, with the given heights.
    let sites = select_tree_sites(&noise, &draws);
    let built = build_structures(&noise, &sites, &vec![3, 5]);
    assert_eq!(built[1], Structure { x: 2, y: 64, z: 1, kind: StructureKind::Tree, height: 5 });
}

#[test]
fn generation_from_a_plan_is_exact() {
    let noise = uniform(ColumnNoise { tree_dense: 700_000, ..flat(0) });
    let mut draws = vec![0i64; 64];
    draws[9] = 650_000;
    let veins = vec![OreVein { start: block_index(2, 30, 2), steps: vec![OreStep { axis: Axis::Y, backward: false }] }];
    let mut world = WorldMap::new();
    generate_chunk_with(&mut world, (0, 0), &noise, &veins, &draws, &vec![4]);
    let b = stored(&world, (0, 0));
    assert_eq!(b[block_index(2, 30, 2)], BlockType::OreStoneGold);
    assert_eq!(b[block_index(2, 31, 2)], BlockType::OreStoneGold);
    assert_eq!(b[block_index(1, 64, 1)], BlockType::Grass);
    for y in 65..69 {
        assert_eq!(b[block_index(1, y, 1)], BlockType::Wood);
    }
    assert_eq!(b[block_index(0, 67, 0)], BlockType::Leaves);
    assert_eq!(b[block_index(1, 70, 1)], BlockType::Air);
    // The canopy reaches past -x and -z into three neighbours.
    for c in [(-1, 0), (0, -1), (-1, -1)] {
        assert!(world.reserved_chunk_data.contains_key(&key_of(c)));
    }
    assert_eq!(world.chunks.len(), 1);
}

#[test]
fn seed_42_floor_is_bedrock_and_no_stone_above_stone_height() {
    let perlin = SeededPerlin::new(42);
    let noise = chunk_noise(&perlin, (0, 0));
    let mut world = WorldMap::new();
    generate_chunk_data(&mut world, 42, (0, 0), &noise);
    let blocks = stored(&world, (0, 0));
    assert_eq!(blocks.len(), CHUNK_VOL);
    for z in 0..CHUNK_WIDTH {
        for x in 0..CHUNK_WIDTH {
            assert_eq!(blocks[block_index(x, 0, z)], BlockType::BedRock);
            let (stone, _) = height_by_coords(&noise.columns[x + z * CHUNK_WIDTH]);
            for y in 0..CHUNK_HEIGHT {
                if blocks[block_index(x, y, z)] == BlockType::Stone {
                    assert!((y as i64) < stone);
                }
            }
        }
    }
}

#[test]
fn generation_is_deterministic() {
    let perlin = SeededPerlin::new(42);
    for c in [(0, 0), (3, -2)] {
        let noise = chunk_noise(&perlin, c);
        let mut a = WorldMap::new();
        let mut b = WorldMap::new();
        generate_chunk_data(&mut a, 42, c, &noise);
        generate_chunk_data(&mut b, 42, c, &noise);
        assert_eq!(stored(&a, c), stored(&b, c));
    }
}
