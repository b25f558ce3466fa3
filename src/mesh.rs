//! The mesher: one quad per exposed voxel face, shaded per corner by
//! ambient occlusion, and a separate surface for the tops of water bodies.

use vstd::prelude::*;
use crate::block::{BlockType, Side, transparent, tile_of};
use crate::chunk::{in_chunk, x_of, y_of, z_of, decompose};
use crate::world::{WorldMap, lookup, block_at_position};
use crate::CHUNK_VOL;

verus! {

/// Vertex coordinates are given in eighths of a block.
pub const SUBDIVISION: i32 = 8;

/// Most vertices one voxel can add: four for each of its six faces.
pub const MAX_VOXEL_VERTICES: usize = 24;

/// Triangle-list geometry: vertex positions in eighths of a block, texture
/// coordinates in atlas tiles, per-vertex brightness in quarters (solid
/// geometry only) and triangle indices.
pub struct MeshData {
    pub positions: Vec<(i32, i32, i32)>,
    pub uvs: Vec<(u32, u32)>,
    pub colors: Vec<u32>,
    pub indices: Vec<u32>,
}

/// What a `MeshData` holds.
pub struct MeshView {
    pub positions: Seq<(i32, i32, i32)>,
    pub uvs: Seq<(u32, u32)>,
    pub colors: Seq<u32>,
    pub indices: Seq<u32>,
}

impl View for MeshData {
    type V = MeshView;

    open spec fn view(&self) -> MeshView {
        MeshView {
            positions: self.positions@,
            uvs: self.uvs@,
            colors: self.colors@,
            indices: self.indices@,
        }
    }
}

/// Geometry with nothing in it.
pub open spec fn empty_mesh() -> MeshView {
    MeshView {
        positions: Seq::empty(),
        uvs: Seq::empty(),
        colors: Seq::empty(),
        indices: Seq::empty(),
    }
}

impl MeshData {
    /// Geometry with nothing in it.
    pub fn new() -> (r: MeshData)
        ensures
            r@ == empty_mesh(),
    {
        MeshData { positions: Vec::new(), uvs: Vec::new(), colors: Vec::new(), indices: Vec::new() }
    }

    /// The number of quads: every face adds four vertices.
    pub fn face_count(&self) -> (r: usize)
        ensures
            r == self@.positions.len() / 4,
    {
        self.positions.len() / 4
    }
}

/// The offset from a voxel to the neighbour behind one of its faces.
pub open spec fn normal(side: Side) -> (int, int, int) {
    match side {
        Side::Right => (1, 0, 0),
        Side::Left => (-1, 0, 0),
        Side::Back => (0, 0, -1),
        Side::Front => (0, 0, 1),
        Side::Bottom => (0, -1, 0),
        Side::Top => (0, 1, 0),
    }
}

/// The order in which the faces of a voxel are emitted.
pub open spec fn side_at(k: int) -> Side {
    if k == 0 {
        Side::Right
    } else if k == 1 {
        Side::Left
    } else if k == 2 {
        Side::Back
    } else if k == 3 {
        Side::Front
    } else if k == 4 {
        Side::Bottom
    } else {
        Side::Top
    }
}

fn side_at_exec(k: usize) -> (r: Side)
    ensures
        r == side_at(k as int),
{
    if k == 0 {
        Side::Right
    } else if k == 1 {
        Side::Left
    } else if k == 2 {
        Side::Back
    } else if k == 3 {
        Side::Front
    } else if k == 4 {
        Side::Bottom
    } else {
        Side::Top
    }
}

fn normal_at(side: Side) -> (r: (i32, i32, i32))
    ensures
        (r.0 as int, r.1 as int, r.2 as int) == normal(side),
{
    match side {
        Side::Right => (1, 0, 0),
        Side::Left => (-1, 0, 0),
        Side::Back => (0, 0, -1),
        Side::Front => (0, 0, 1),
        Side::Bottom => (0, -1, 0),
        Side::Top => (0, 1, 0),
    }
}

/// The eight cells around a face, in the plane beyond it, walked in a ring;
/// `ring_offset(side, j)` is the offset of the j-th from the voxel.
pub open spec fn ring_offset(side: Side, j: int) -> (int, int, int) {
    match side {
        Side::Right => if j == 0 {
                (1, 0, -1)
            } else if j == 1 {
                (1, -1, -1)
            } else if j == 2 {
                (1, -1, 0)
            } else if j == 3 {
                (1, -1, 1)
            } else if j == 4 {
                (1, 0, 1)
            } else if j == 5 {
                (1, 1, 1)
            } else if j == 6 {
                (1, 1, 0)
            } else {
                (1, 1, -1)
            },
        Side::Left => if j == 0 {
                (-1, 0, 1)
            } else if j == 1 {
                (-1, -1, 1)
            } else if j == 2 {
                (-1, -1, 0)
            } else if j == 3 {
                (-1, -1, -1)
            } else if j == 4 {
                (-1, 0, -1)
            } else if j == 5 {
                (-1, 1, -1)
            } else if j == 6 {
                (-1, 1, 0)
            } else {
                (-1, 1, 1)
            },
        Side::Back => if j == 0 {
                (-1, 0, -1)
            } else if j == 1 {
                (-1, -1, -1)
            } else if j == 2 {
                (0, -1, -1)
            } else if j == 3 {
                (1, -1, -1)
            } else if j == 4 {
                (1, 0, -1)
            } else if j == 5 {
                (1, 1, -1)
            } else if j == 6 {
                (0, 1, -1)
            } else {
                (-1, 1, -1)
            },
        Side::Front => if j == 0 {
                (1, 0, 1)
            } else if j == 1 {
                (1, -1, 1)
            } else if j == 2 {
                (0, -1, 1)
            } else if j == 3 {
                (-1, -1, 1)
            } else if j == 4 {
                (-1, 0, 1)
            } else if j == 5 {
                (-1, 1, 1)
            } else if j == 6 {
                (0, 1, 1)
            } else {
                (1, 1, 1)
            },
        Side::Bottom => if j == 0 {
                (-1, -1, 0)
            } else if j == 1 {
                (-1, -1, 1)
            } else if j == 2 {
                (0, -1, 1)
            } else if j == 3 {
                (1, -1, 1)
            } else if j == 4 {
                (1, -1, 0)
            } else if j == 5 {
                (1, -1, -1)
            } else if j == 6 {
                (0, -1, -1)
            } else {
                (-1, -1, -1)
            },
        Side::Top => if j == 0 {
                (0, 1, 1)
            } else if j == 1 {
                (-1, 1, 1)
            } else if j == 2 {
                (-1, 1, 0)
            } else if j == 3 {
                (-1, 1, -1)
            } else if j == 4 {
                (0, 1, -1)
            } else if j == 5 {
                (1, 1, -1)
            } else if j == 6 {
                (1, 1, 0)
            } else {
                (1, 1, 1)
            },
    }
}

fn ring_offset_at(side: Side, j: usize) -> (r: (i32, i32, i32))
    requires
        j < 8,
    ensures
        (r.0 as int, r.1 as int, r.2 as int) == ring_offset(side, j as int),
{
    match side {
        Side::Right => if j == 0 {
                (1, 0, -1)
            } else if j == 1 {
                (1, -1, -1)
            } else if j == 2 {
                (1, -1, 0)
            } else if j == 3 {
                (1, -1, 1)
            } else if j == 4 {
                (1, 0, 1)
            } else if j == 5 {
                (1, 1, 1)
            } else if j == 6 {
                (1, 1, 0)
            } else {
                (1, 1, -1)
            },
        Side::Left => if j == 0 {
                (-1, 0, 1)
            } else if j == 1 {
                (-1, -1, 1)
            } else if j == 2 {
                (-1, -1, 0)
            } else if j == 3 {
                (-1, -1, -1)
            } else if j == 4 {
                (-1, 0, -1)
            } else if j == 5 {
                (-1, 1, -1)
            } else if j == 6 {
                (-1, 1, 0)
            } else {
                (-1, 1, 1)
            },
        Side::Back => if j == 0 {
                (-1, 0, -1)
            } else if j == 1 {
                (-1, -1, -1)
            } else if j == 2 {
                (0, -1, -1)
            } else if j == 3 {
                (1, -1, -1)
            } else if j == 4 {
                (1, 0, -1)
            } else if j == 5 {
                (1, 1, -1)
            } else if j == 6 {
                (0, 1, -1)
            } else {
                (-1, 1, -1)
            },
        Side::Front => if j == 0 {
                (1, 0, 1)
            } else if j == 1 {
                (1, -1, 1)
            } else if j == 2 {
                (0, -1, 1)
            } else if j == 3 {
                (-1, -1, 1)
            } else if j == 4 {
                (-1, 0, 1)
            } else if j == 5 {
                (-1, 1, 1)
            } else if j == 6 {
                (0, 1, 1)
            } else {
                (1, 1, 1)
            },
        Side::Bottom => if j == 0 {
                (-1, -1, 0)
            } else if j == 1 {
                (-1, -1, 1)
            } else if j == 2 {
                (0, -1, 1)
            } else if j == 3 {
                (1, -1, 1)
            } else if j == 4 {
                (1, -1, 0)
            } else if j == 5 {
                (1, -1, -1)
            } else if j == 6 {
                (0, -1, -1)
            } else {
                (-1, -1, -1)
            },
        Side::Top => if j == 0 {
                (0, 1, 1)
            } else if j == 1 {
                (-1, 1, 1)
            } else if j == 2 {
                (-1, 1, 0)
            } else if j == 3 {
                (-1, 1, -1)
            } else if j == 4 {
                (0, 1, -1)
            } else if j == 5 {
                (1, 1, -1)
            } else if j == 6 {
                (1, 1, 0)
            } else {
                (1, 1, 1)
            },
    }
}

pub open spec fn corner(side: Side, k: int) -> (int, int, int) {
    match side {
        Side::Right => if k == 0 {
                (1, 1, 0)
            } else if k == 1 {
                (1, 1, 1)
            } else if k == 2 {
                (1, 0, 1)
            } else {
                (1, 0, 0)
            },
        Side::Left => if k == 0 {
                (0, 1, 1)
            } else if k == 1 {
                (0, 1, 0)
            } else if k == 2 {
                (0, 0, 0)
            } else {
                (0, 0, 1)
            },
        Side::Back => if k == 0 {
                (0, 1, 0)
            } else if k == 1 {
                (1, 1, 0)
            } else if k == 2 {
                (1, 0, 0)
            } else {
                (0, 0, 0)
            },
        Side::Front => if k == 0 {
                (1, 1, 1)
            } else if k == 1 {
                (0, 1, 1)
            } else if k == 2 {
                (0, 0, 1)
            } else {
                (1, 0, 1)
            },
        Side::Bottom => if k == 0 {
                (0, 0, 0)
            } else if k == 1 {
                (1, 0, 0)
            } else if k == 2 {
                (1, 0, 1)
            } else {
                (0, 0, 1)
            },
        Side::Top => if k == 0 {
                (1, 1, 1)
            } else if k == 1 {
                (1, 1, 0)
            } else if k == 2 {
                (0, 1, 0)
            } else {
                (0, 1, 1)
            },
    }
}

fn corner_at(side: Side, k: usize) -> (r: (i32, i32, i32))
    requires
        k < 4,
    ensures
        (r.0 as int, r.1 as int, r.2 as int) == corner(side, k as int),
{
    match side {
        Side::Right => if k == 0 {
                (1, 1, 0)
            } else if k == 1 {
                (1, 1, 1)
            } else if k == 2 {
                (1, 0, 1)
            } else {
                (1, 0, 0)
            },
        Side::Left => if k == 0 {
                (0, 1, 1)
            } else if k == 1 {
                (0, 1, 0)
            } else if k == 2 {
                (0, 0, 0)
            } else {
                (0, 0, 1)
            },
        Side::Back => if k == 0 {
                (0, 1, 0)
            } else if k == 1 {
                (1, 1, 0)
            } else if k == 2 {
                (1, 0, 0)
            } else {
                (0, 0, 0)
            },
        Side::Front => if k == 0 {
                (1, 1, 1)
            } else if k == 1 {
                (0, 1, 1)
            } else if k == 2 {
                (0, 0, 1)
            } else {
                (1, 0, 1)
            },
        Side::Bottom => if k == 0 {
                (0, 0, 0)
            } else if k == 1 {
                (1, 0, 0)
            } else if k == 2 {
                (1, 0, 1)
            } else {
                (0, 0, 1)
            },
        Side::Top => if k == 0 {
                (1, 1, 1)
            } else if k == 1 {
                (1, 1, 0)
            } else if k == 2 {
                (0, 1, 0)
            } else {
                (0, 1, 1)
            },
    }
}

/// Texture corner of the k-th vertex of a face, within its tile.
pub open spec fn uv_corner(k: int) -> (int, int) {
    if k == 0 {
        (0, 0)
    } else if k == 1 {
        (1, 0)
    } else if k == 2 {
        (1, 1)
    } else {
        (0, 1)
    }
}

fn uv_corner_at(k: usize) -> (r: (u32, u32))
    ensures
        (r.0 as int, r.1 as int) == uv_corner(k as int),
{
    if k == 0 {
        (0, 0)
    } else if k == 1 {
        (1, 0)
    } else if k == 2 {
        (1, 1)
    } else {
        (0, 1)
    }
}

/// Occlusion level of one face corner from whether its two edge cells and
/// its diagonal cell are transparent: 0 when both edge cells are
/// transparent, 1 when the diagonal and exactly one edge cell are, 3 when
/// none is, 2 otherwise.
pub open spec fn ao_level(side1: bool, corner: bool, side2: bool) -> int {
    if side1 && side2 {
        0
    } else if (side1 && corner && !side2) || (!side1 && corner && side2) {
        1
    } else if !side1 && !corner && !side2 {
        3
    } else {
        2
    }
}

/// The ring slot of the m-th of the three cells that touch the k-th corner
/// of a face: m = 0 and m = 2 are the edge cells, m = 1 the diagonal one.
pub open spec fn corner_cell(k: int, m: int) -> int {
    (6 - 2 * k + m) % 8
}

/// Brightness, in quarters, of the k-th corner of a face whose ring of cells
/// is transparent where `open` says: four minus the level of the corner's
/// three touching cells.
pub open spec fn corner_light(open: Seq<bool>, k: int) -> int {
    4 - ao_level(open[corner_cell(k, 0)], open[corner_cell(k, 1)], open[corner_cell(k, 2)])
}

/// Whether the unit cell at offset `cell` from a voxel touches the point
/// at offset `point`.
pub open spec fn touches(cell: (int, int, int), point: (int, int, int)) -> bool {
    &&& cell.0 <= point.0 <= cell.0 + 1
    &&& cell.1 <= point.1 <= cell.1 + 1
    &&& cell.2 <= point.2 <= cell.2 + 1
}

/// Every corner of every face is shaded from the three ring cells that
/// touch that corner.
pub proof fn lemma_corner_cells_touch_corner(side: Side, k: int, m: int)
    requires
        0 <= k < 4,
        0 <= m < 3,
    ensures
        touches(ring_offset(side, corner_cell(k, m)), corner(side, k)),
{
    assert(0 <= corner_cell(k, m) < 8);
    if k == 0 {
        assert(corner_cell(k, m) == if m == 2 { 0 } else { 6 + m });
    } else if k == 1 {
        assert(corner_cell(k, m) == 4 + m);
    } else if k == 2 {
        assert(corner_cell(k, m) == 2 + m);
    } else {
        assert(corner_cell(k, m) == m);
    }
}

/// Brightness, in quarters, of the four corners of a face.
pub open spec fn face_light(open: Seq<bool>) -> Seq<u32> {
    Seq::new(4, |k: int| corner_light(open, k) as u32)
}

/// Which cells of the ring around a face are transparent.
pub open spec fn ring_open(
    ch: Map<(i32, i32), Seq<BlockType>>,
    c: (i32, i32),
    x: int,
    y: int,
    z: int,
    side: Side,
) -> Seq<bool> {
    Seq::new(
        8,
        |j: int|
            transparent(
                lookup(
                    ch,
                    c,
                    x + ring_offset(side, j).0,
                    y + ring_offset(side, j).1,
                    z + ring_offset(side, j).2,
                ),
            ),
    )
}

/// The vertices of one face of voxel (x, y, z).
pub open spec fn face_quad(x: int, y: int, z: int, side: Side) -> Seq<(i32, i32, i32)> {
    Seq::new(
        4,
        |k: int|
            (
                (8 * (x + corner(side, k).0)) as i32,
                (8 * (y + corner(side, k).1)) as i32,
                (8 * (z + corner(side, k).2)) as i32,
            ),
    )
}

/// The vertices of a water surface: the top face lowered by an eighth.
pub open spec fn water_quad(x: int, y: int, z: int) -> Seq<(i32, i32, i32)> {
    Seq::new(
        4,
        |k: int|
            (
                (8 * (x + corner(Side::Top, k).0)) as i32,
                (8 * y + 7) as i32,
                (8 * (z + corner(Side::Top, k).2)) as i32,
            ),
    )
}

/// The texture coordinates of one face of a block.
pub open spec fn face_uvs(b: BlockType, side: Side) -> Seq<(u32, u32)> {
    Seq::new(
        4,
        |k: int|
            (
                (tile_of(b, side).0 + uv_corner(k).0) as u32,
                (tile_of(b, side).1 + uv_corner(k).1) as u32,
            ),
    )
}

/// The two triangles of a quad whose first vertex is `base`.
pub open spec fn quad_indices(base: int) -> Seq<u32> {
    seq![base as u32, (base + 1) as u32, (base + 2) as u32, base as u32, (base + 2) as u32, (base + 3) as u32]
}

/// Appends a quad.
pub open spec fn add_quad(
    m: MeshView,
    verts: Seq<(i32, i32, i32)>,
    uvs: Seq<(u32, u32)>,
    colors: Seq<u32>,
) -> MeshView {
    MeshView {
        positions: m.positions + verts,
        uvs: m.uvs + uvs,
        colors: m.colors + colors,
        indices: m.indices + quad_indices(m.positions.len() as int),
    }
}

/// The first k faces, in emission order, of block b at (x, y, z): a face is
/// emitted when the neighbour behind it is transparent.
pub open spec fn block_faces(
    m: MeshView,
    ch: Map<(i32, i32), Seq<BlockType>>,
    c: (i32, i32),
    x: int,
    y: int,
    z: int,
    b: BlockType,
    k: nat,
) -> MeshView
    decreases k,
{
    if k == 0 {
        m
    } else {
        let prev = block_faces(m, ch, c, x, y, z, b, (k - 1) as nat);
        let side = side_at(k - 1);
        let n = normal(side);
        if transparent(lookup(ch, c, x + n.0, y + n.1, z + n.2)) {
            add_quad(
                prev,
                face_quad(x, y, z, side),
                face_uvs(b, side),
                face_light(ring_open(ch, c, x, y, z, side)),
            )
        } else {
            prev
        }
    }
}

/// The solid geometry of voxel (x, y, z): none for a transparent block,
/// otherwise its exposed faces.
pub open spec fn voxel_mesh(
    m: MeshView,
    ch: Map<(i32, i32), Seq<BlockType>>,
    c: (i32, i32),
    x: int,
    y: int,
    z: int,
) -> MeshView {
    let b = lookup(ch, c, x, y, z);
    if transparent(b) {
        m
    } else {
        block_faces(m, ch, c, x, y, z, b, 6)
    }
}

/// The solid geometry of the first n voxels of chunk c, in index order.
pub open spec fn chunk_mesh(ch: Map<(i32, i32), Seq<BlockType>>, c: (i32, i32), n: nat) -> MeshView
    decreases n,
{
    if n == 0 {
        empty_mesh()
    } else {
        let i = n - 1;
        voxel_mesh(chunk_mesh(ch, c, (n - 1) as nat), ch, c, x_of(i), y_of(i), z_of(i))
    }
}

/// Whether voxel (x, y, z) is the top of a water body: water under a
/// transparent block that is not water.
pub open spec fn water_top(
    ch: Map<(i32, i32), Seq<BlockType>>,
    c: (i32, i32),
    x: int,
    y: int,
    z: int,
) -> bool {
    &&& lookup(ch, c, x, y, z) == BlockType::Water
    &&& transparent(lookup(ch, c, x, y + 1, z))
    &&& lookup(ch, c, x, y + 1, z) != BlockType::Water
}

/// The water geometry of voxel (x, y, z).
pub open spec fn water_voxel_mesh(
    m: MeshView,
    ch: Map<(i32, i32), Seq<BlockType>>,
    c: (i32, i32),
    x: int,
    y: int,
    z: int,
) -> MeshView {
    if water_top(ch, c, x, y, z) {
        add_quad(m, water_quad(x, y, z), face_uvs(BlockType::Water, Side::Top), Seq::empty())
    } else {
        m
    }
}

/// The water geometry of the first n voxels of chunk c, in index order.
pub open spec fn water_mesh(ch: Map<(i32, i32), Seq<BlockType>>, c: (i32, i32), n: nat) -> MeshView
    decreases n,
{
    if n == 0 {
        empty_mesh()
    } else {
        let i = n - 1;
        water_voxel_mesh(water_mesh(ch, c, (n - 1) as nat), ch, c, x_of(i), y_of(i), z_of(i))
    }
}

/// Appends the two triangles of a quad whose first vertex is `base_index`.
pub fn add_indices(indices: &mut Vec<u32>, base_index: u32)
    requires
        base_index + 3 <= u32::MAX,
    ensures
        final(indices)@ == old(indices)@ + quad_indices(base_index as int),
{
    indices.push(base_index);
    indices.push(base_index + 1);
    indices.push(base_index + 2);
    indices.push(base_index);
    indices.push(base_index + 2);
    indices.push(base_index + 3);
    assert(final(indices)@ =~= old(indices)@ + quad_indices(base_index as int));
}

/// The occlusion level of a face corner.
pub fn ao_value(side1: bool, corner: bool, side2: bool) -> (r: u32)
    ensures
        r == ao_level(side1, corner, side2),
{
    if side1 && side2 {
        0
    } else if (side1 && corner && !side2) || (!side1 && corner && side2) {
        1
    } else if !side1 && !corner && !side2 {
        3
    } else {
        2
    }
}

/// Brightness, in quarters, of the four corners of a face whose ring of
/// eight cells holds `neighbors`.
#[verifier::rlimit(50)]
pub fn side_ao(neighbors: [BlockType; 8]) -> (r: [u32; 4])
    ensures
        r@ == face_light(Seq::new(8, |j: int| transparent(neighbors@[j]))),
{
    let ghost open = Seq::new(8, |j: int| transparent(neighbors@[j]));
    let n0 = neighbors[0].is_transparent();
    let n1 = neighbors[1].is_transparent();
    let n2 = neighbors[2].is_transparent();
    let n3 = neighbors[3].is_transparent();
    let n4 = neighbors[4].is_transparent();
    let n5 = neighbors[5].is_transparent();
    let n6 = neighbors[6].is_transparent();
    let n7 = neighbors[7].is_transparent();
    assert(open[0] == n0 && open[1] == n1 && open[2] == n2 && open[3] == n3);
    assert(open[4] == n4 && open[5] == n5 && open[6] == n6 && open[7] == n7);
    let l0 = 4 - ao_value(n6, n7, n0);
    let l1 = 4 - ao_value(n4, n5, n6);
    let l2 = 4 - ao_value(n2, n3, n4);
    let l3 = 4 - ao_value(n0, n1, n2);
    let ghost light = face_light(open);
    assert(light[0] == l0 && light[1] == l1 && light[2] == l2 && light[3] == l3);
    let r = [l0, l1, l2, l3];
    assert(r@ =~= light);
    r
}

/// Brightness, in quarters, of the four corners of one face of the voxel at
/// `block_position`, from the ring of cells beyond that face.
#[verifier::rlimit(80)]
pub fn calculate_ao(
    world_map: &WorldMap,
    block_position: (i32, i32, i32),
    chunk_position: (i32, i32),
    side: Side,
) -> (r: [u32; 4])
    requires
        world_map.wf(),
        in_chunk(block_position.0 as int, block_position.1 as int, block_position.2 as int),
    ensures
        r@ == face_light(
            ring_open(
                world_map.chunks_view(),
                chunk_position,
                block_position.0 as int,
                block_position.1 as int,
                block_position.2 as int,
                side,
            ),
        ),
{
    let (x, y, z) = block_position;
    let ghost open = ring_open(world_map.chunks_view(), chunk_position, x as int, y as int, z as int, side);
    let o0 = ring_offset_at(side, 0);
    let b0 = block_at_position(world_map, (x + o0.0, y + o0.1, z + o0.2), chunk_position);
    let o1 = ring_offset_at(side, 1);
    let b1 = block_at_position(world_map, (x + o1.0, y + o1.1, z + o1.2), chunk_position);
    let o2 = ring_offset_at(side, 2);
    let b2 = block_at_position(world_map, (x + o2.0, y + o2.1, z + o2.2), chunk_position);
    let o3 = ring_offset_at(side, 3);
    let b3 = block_at_position(world_map, (x + o3.0, y + o3.1, z + o3.2), chunk_position);
    let o4 = ring_offset_at(side, 4);
    let b4 = block_at_position(world_map, (x + o4.0, y + o4.1, z + o4.2), chunk_position);
    let o5 = ring_offset_at(side, 5);
    let b5 = block_at_position(world_map, (x + o5.0, y + o5.1, z + o5.2), chunk_position);
    let o6 = ring_offset_at(side, 6);
    let b6 = block_at_position(world_map, (x + o6.0, y + o6.1, z + o6.2), chunk_position);
    let o7 = ring_offset_at(side, 7);
    let b7 = block_at_position(world_map, (x + o7.0, y + o7.1, z + o7.2), chunk_position);
    let neighbors = [b0, b1, b2, b3, b4, b5, b6, b7];
    let ghost seen = Seq::new(8, |j: int| transparent(neighbors@[j]));
    assert(seen[0] == open[0] && seen[1] == open[1] && seen[2] == open[2] && seen[3] == open[3]);
    assert(seen[4] == open[4] && seen[5] == open[5] && seen[6] == open[6] && seen[7] == open[7]);
    assert(seen =~= open);
    side_ao(neighbors)
}

/// Appends one face of block b at voxel (x, y, z), with its corner brightness.
fn push_face(
    mesh: &mut MeshData,
    x: i32,
    y: i32,
    z: i32,
    side: Side,
    b: BlockType,
    light: &[u32; 4],
)
    requires
        in_chunk(x as int, y as int, z as int),
        old(mesh)@.positions.len() + 4 <= u32::MAX,
    ensures
        final(mesh)@ == add_quad(old(mesh)@, face_quad(x as int, y as int, z as int, side), face_uvs(b, side), light@),
{
    let ghost start = mesh@;
    let ghost verts = face_quad(x as int, y as int, z as int, side);
    let ghost uvs = face_uvs(b, side);
    let base = mesh.positions.len() as u32;
    let tile = b.tile(side);
    let mut k: usize = 0;
    while k < 4
        invariant
            in_chunk(x as int, y as int, z as int),
            k <= 4,
            base == start.positions.len(),
            tile == tile_of(b, side),
            verts == face_quad(x as int, y as int, z as int, side),
            uvs == face_uvs(b, side),
            mesh.positions@ =~= start.positions + verts.take(k as int),
            mesh.uvs@ =~= start.uvs + uvs.take(k as int),
            mesh.colors@ =~= start.colors + light@.take(k as int),
            mesh.indices@ == start.indices,
        decreases 4 - k,
    {
        let c = corner_at(side, k);
        let uv = uv_corner_at(k);
        mesh.positions.push((8 * (x + c.0), 8 * (y + c.1), 8 * (z + c.2)));
        mesh.uvs.push((tile.0 + uv.0, tile.1 + uv.1));
        mesh.colors.push(light[k]);
        k = k + 1;
    }
    assert(verts.take(4) =~= verts);
    assert(uvs.take(4) =~= uvs);
    assert(light@.take(4) =~= light@);
    add_indices(&mut mesh.indices, base);
}

/// Appends the water surface of voxel (x, y, z).
fn push_water_face(mesh: &mut MeshData, x: i32, y: i32, z: i32)
    requires
        in_chunk(x as int, y as int, z as int),
        old(mesh)@.positions.len() + 4 <= u32::MAX,
    ensures
        final(mesh)@ == add_quad(
            old(mesh)@,
            water_quad(x as int, y as int, z as int),
            face_uvs(BlockType::Water, Side::Top),
            Seq::empty(),
        ),
{
    let ghost start = mesh@;
    let ghost verts = water_quad(x as int, y as int, z as int);
    let ghost uvs = face_uvs(BlockType::Water, Side::Top);
    let base = mesh.positions.len() as u32;
    let tile = BlockType::Water.tile(Side::Top);
    let mut k: usize = 0;
    while k < 4
        invariant
            in_chunk(x as int, y as int, z as int),
            k <= 4,
            base == start.positions.len(),
            tile == tile_of(BlockType::Water, Side::Top),
            verts == water_quad(x as int, y as int, z as int),
            uvs == face_uvs(BlockType::Water, Side::Top),
            mesh.positions@ =~= start.positions + verts.take(k as int),
            mesh.uvs@ =~= start.uvs + uvs.take(k as int),
            mesh.colors@ == start.colors,
            mesh.indices@ == start.indices,
        decreases 4 - k,
    {
        let c = corner_at(Side::Top, k);
        let uv = uv_corner_at(k);
        mesh.positions.push((8 * (x + c.0), 8 * y + 7, 8 * (z + c.2)));
        mesh.uvs.push((tile.0 + uv.0, tile.1 + uv.1));
        k = k + 1;
    }
    assert(verts.take(4) =~= verts);
    assert(uvs.take(4) =~= uvs);
    assert(mesh.colors@ =~= start.colors + Seq::<u32>::empty());
    add_indices(&mut mesh.indices, base);
}

/// Appends the solid geometry of the voxel at `block_position`: nothing for
/// a transparent block, otherwise each face whose neighbour is transparent,
/// with its texture and corner brightness.
pub fn generate_block(
    mesh: &mut MeshData,
    world_map: &WorldMap,
    block_position: (i32, i32, i32),
    chunk_position: (i32, i32),
)
    requires
        world_map.wf(),
        in_chunk(block_position.0 as int, block_position.1 as int, block_position.2 as int),
        old(mesh)@.positions.len() + MAX_VOXEL_VERTICES <= u32::MAX,
    ensures
        final(mesh)@ == voxel_mesh(
            old(mesh)@,
            world_map.chunks_view(),
            chunk_position,
            block_position.0 as int,
            block_position.1 as int,
            block_position.2 as int,
        ),
        final(mesh)@.positions.len() <= old(mesh)@.positions.len() + MAX_VOXEL_VERTICES,
{
    let (x, y, z) = block_position;
    let block = block_at_position(world_map, block_position, chunk_position);
    if block.is_transparent() {
        return;
    }
    let ghost start = mesh@;
    let ghost ch = world_map.chunks_view();
    let mut k: usize = 0;
    while k < 6
        invariant
            world_map.wf(),
            ch == world_map.chunks_view(),
            in_chunk(x as int, y as int, z as int),
            block_position == (x, y, z),
            block == lookup(ch, chunk_position, x as int, y as int, z as int),
            k <= 6,
            start.positions.len() + MAX_VOXEL_VERTICES <= u32::MAX,
            mesh@ == block_faces(start, ch, chunk_position, x as int, y as int, z as int, block, k as nat),
            mesh@.positions.len() <= start.positions.len() + 4 * k,
        decreases 6 - k,
    {
        let side = side_at_exec(k);
        let n = normal_at(side);
        let behind = block_at_position(world_map, (x + n.0, y + n.1, z + n.2), chunk_position);
        if behind.is_transparent() {
            let light = calculate_ao(world_map, block_position, chunk_position, side);
            push_face(mesh, x, y, z, side, block, &light);
        }
        k = k + 1;
    }
}

/// Appends the water surface of the voxel at `block_position` when it is
/// the top of a water body.
pub fn generate_water_block(
    mesh: &mut MeshData,
    world_map: &WorldMap,
    block_position: (i32, i32, i32),
    chunk_position: (i32, i32),
)
    requires
        world_map.wf(),
        in_chunk(block_position.0 as int, block_position.1 as int, block_position.2 as int),
        old(mesh)@.positions.len() + 4 <= u32::MAX,
    ensures
        final(mesh)@ == water_voxel_mesh(
            old(mesh)@,
            world_map.chunks_view(),
            chunk_position,
            block_position.0 as int,
            block_position.1 as int,
            block_position.2 as int,
        ),
        final(mesh)@.positions.len() <= old(mesh)@.positions.len() + 4,
{
    let (x, y, z) = block_position;
    let block = block_at_position(world_map, block_position, chunk_position);
    if block != BlockType::Water {
        return;
    }
    let above = block_at_position(world_map, (x, y + 1, z), chunk_position);
    if above.is_transparent() && above != BlockType::Water {
        push_water_face(mesh, x, y, z);
    }
}

/// The solid geometry of chunk `position`, voxel by voxel in index order.
pub fn generate_chunk_mesh(world_map: &WorldMap, position: (i32, i32)) -> (r: MeshData)
    requires
        world_map.wf(),
    ensures
        r@ == chunk_mesh(world_map.chunks_view(), position, CHUNK_VOL as nat),
{
    let mut mesh = MeshData::new();
    let mut i: usize = 0;
    while i < CHUNK_VOL
        invariant
            world_map.wf(),
            i <= CHUNK_VOL,
            mesh@ == chunk_mesh(world_map.chunks_view(), position, i as nat),
            mesh@.positions.len() <= MAX_VOXEL_VERTICES * i,
        decreases CHUNK_VOL - i,
    {
        let (x, y, z) = decompose(i);
        generate_block(&mut mesh, world_map, (x as i32, y as i32, z as i32), position);
        i = i + 1;
    }
    mesh
}

/// The water geometry of chunk `position`, voxel by voxel in index order.
pub fn generate_water_chunk_mesh(world_map: &WorldMap, position: (i32, i32)) -> (r: MeshData)
    requires
        world_map.wf(),
    ensures
        r@ == water_mesh(world_map.chunks_view(), position, CHUNK_VOL as nat),
{
    let mut mesh = MeshData::new();
    let mut i: usize = 0;
    while i < CHUNK_VOL
        invariant
            world_map.wf(),
            i <= CHUNK_VOL,
            mesh@ == water_mesh(world_map.chunks_view(), position, i as nat),
            mesh@.positions.len() <= 4 * i,
        decreases CHUNK_VOL - i,
    {
        let (x, y, z) = decompose(i);
        generate_water_block(&mut mesh, world_map, (x as i32, y as i32, z as i32), position);
        i = i + 1;
    }
    mesh
}

} // verus!
