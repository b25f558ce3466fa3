//! Block kinds, their transparency and their texture tiles.

use vstd::prelude::*;

verus! {

/// The kind of one voxel.
#[derive(Clone, Copy, Debug, PartialEq, Eq, Structural)]
pub enum BlockType {
    Air,
    BedRock,
    Stone,
    Dirt,
    Grass,
    Sand,
    Water,
    OreStoneGold,
    Wood,
    Leaves,
    Cactus,
}

/// One of the six faces of a voxel.
#[derive(Clone, Copy, Debug, PartialEq, Eq, Structural)]
pub enum Side {
    /// The face towards +x.
    Right,
    /// The face towards -x.
    Left,
    /// The face towards -z.
    Back,
    /// The face towards +z.
    Front,
    /// The face towards -y.
    Bottom,
    /// The face towards +y.
    Top,
}

/// Whether faces and occlusion see through a block of this kind.
pub open spec fn transparent(b: BlockType) -> bool {
    b == BlockType::Air || b == BlockType::Water
}

/// The kinds of block that structures are made of.
pub open spec fn is_structure_block(b: BlockType) -> bool {
    b == BlockType::Wood || b == BlockType::Leaves || b == BlockType::Cactus
}

/// Column and row, in the texture atlas, of the tile shown on one face.
pub open spec fn tile_of(b: BlockType, side: Side) -> (u32, u32) {
    match b {
        BlockType::Air => (0, 0),
        BlockType::Dirt => (0, 0),
        BlockType::Grass => match side {
            Side::Top => (2, 0),
            Side::Bottom => (0, 0),
            _ => (1, 0),
        },
        BlockType::Stone => (3, 0),
        BlockType::Sand => (4, 0),
        BlockType::BedRock => (5, 0),
        BlockType::Water => (6, 0),
        BlockType::OreStoneGold => (7, 0),
        BlockType::Wood => match side {
            Side::Top => (9, 0),
            Side::Bottom => (9, 0),
            _ => (8, 0),
        },
        BlockType::Leaves => (10, 0),
        BlockType::Cactus => match side {
            Side::Top => (12, 0),
            Side::Bottom => (12, 0),
            _ => (11, 0),
        },
    }
}

impl BlockType {
    /// Air and water are passed through by face culling and occlusion;
    /// every other kind is opaque.
    pub fn is_transparent(&self) -> (r: bool)
        ensures
            r == transparent(*self),
    {
        match self {
            BlockType::Air => true,
            BlockType::Water => true,
            _ => false,
        }
    }

    /// The atlas tile shown on the given face of a block of this kind.
    pub fn tile(&self, side: Side) -> (r: (u32, u32))
        ensures
            r == tile_of(*self, side),
    {
        match self {
            BlockType::Air => (0, 0),
            BlockType::Dirt => (0, 0),
            BlockType::Grass => match side {
                Side::Top => (2, 0),
                Side::Bottom => (0, 0),
                _ => (1, 0),
            },
            BlockType::Stone => (3, 0),
            BlockType::Sand => (4, 0),
            BlockType::BedRock => (5, 0),
            BlockType::Water => (6, 0),
            BlockType::OreStoneGold => (7, 0),
            BlockType::Wood => match side {
                Side::Top => (9, 0),
                Side::Bottom => (9, 0),
                _ => (8, 0),
            },
            BlockType::Leaves => (10, 0),
            BlockType::Cactus => match side {
                Side::Top => (12, 0),
                Side::Bottom => (12, 0),
                _ => (11, 0),
            },
        }
    }
}

/// Air and water are transparent; every other kind is opaque.
pub proof fn lemma_transparency(b: BlockType)
    ensures
        transparent(b) <==> (b == BlockType::Air || b == BlockType::Water),
        (b != BlockType::Air && b != BlockType::Water) ==> !transparent(b),
{
}

} // verus!
