use budgetcraft::block::{BlockType, Side};
use budgetcraft::chunk::{block_index, decompose, Chunk};
use budgetcraft::{CHUNK_HEIGHT, CHUNK_VOL, CHUNK_WIDTH};

const ALL_BLOCKS: [BlockType; 11] = [
    BlockType::Air,
    BlockType::BedRock,
    BlockType::Stone,
    BlockType::Dirt,
    BlockType::Grass,
    BlockType::Sand,
    BlockType::Water,
    BlockType::OreStoneGold,
    BlockType::Wood,
    BlockType::Leaves,
    BlockType::Cactus,
];

#[test]
fn index_round_trip_every_cell() {
    for z in 0..CHUNK_WIDTH {
        for y in 0..CHUNK_HEIGHT {
            for x in 0..CHUNK_WIDTH {
                let i = block_index(x, y, z);
                assert_eq!(i, x + y * CHUNK_WIDTH + z * CHUNK_WIDTH * CHUNK_HEIGHT);
                assert_eq!(decompose(i), (x, y, z));
            }
        }
    }
}

#[test]
fn index_layout_examples() {
    assert_eq!(block_index(0, 0, 0), 0);
    assert_eq!(block_index(1, 0, 0), 1);
    assert_eq!(block_index(0, 1, 0), 8);
    assert_eq!(block_index(0, 0, 1), 2048);
    assert_eq!(block_index(7, 255, 7), CHUNK_VOL - 1);
    assert_eq!(decompose(2048 + 8 * 3 + 5), (5, 3, 1));
}

#[test]
fn only_air_and_water_are_transparent() {
    for b in ALL_BLOCKS {
        let expected = b == BlockType::Air || b == BlockType::Water;
        assert_eq!(b.is_transparent(), expected, "{:?}", b);
    }
}

#[test]
fn grass_has_distinct_top_side_and_bottom_tiles() {
    assert_eq!(BlockType::Grass.tile(Side::Top), (2, 0));
    assert_eq!(BlockType::Grass.tile(Side::Right), (1, 0));
    assert_eq!(BlockType::Grass.tile(Side::Bottom), (0, 0));
    assert_eq!(BlockType::Stone.tile(Side::Front), (3, 0));
}

#[test]
fn empty_chunk_is_all_air_and_set_get_round_trip() {
    let mut c = Chunk::empty();
    assert_eq!(c.blocks.len(), CHUNK_VOL);
    assert!(c.blocks.iter().all(|b| *b == BlockType::Air));
    c.set(123, BlockType::Stone);
    assert_eq!(c.get(123), BlockType::Stone);
    assert_eq!(c.get(124), BlockType::Air);
}
