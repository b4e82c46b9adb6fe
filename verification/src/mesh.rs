use vstd::prelude::*;

use crate::chunk::{bit, lemma_same_blocks_same_rows, Chunk, CHUNK_SIZE};
use crate::coordinate::{
    lemma_world_position_decomposes, Formable3D, spec_chunk_pos, spec_chunk_rel_pos, ChunkPosition, WorldPosition,
};

verus! {

/// The six faces of a cell, in the order in which the mesher visits them.
#[derive(Clone, Copy, Debug, PartialEq, Eq, Structural)]
pub enum Face {
    NegZ,
    PosZ,
    PosX,
    NegX,
    PosY,
    NegY,
}

/// The world position of the near corner of cell (x, y, z) of the chunk at
/// `pos`: the padding row is taken off x and z, and the chunk's offset added.
pub open spec fn spec_mesh_coord(pos: ChunkPosition, x: int, y: int, z: int) -> WorldPosition {
    WorldPosition {
        x: (x - 1 + CHUNK_SIZE as int * pos.x) as i64,
        y: y as i64,
        z: (z - 1 + CHUNK_SIZE as int * pos.y) as i64,
    }
}

/// The corner from which the vertices of a face are counted: the cell's own
/// corner, except for the face towards -x, which is drawn from the cell before it.
pub open spec fn face_base(pos: ChunkPosition, f: Face, x: int, y: int, z: int) -> WorldPosition {
    if f == Face::NegX {
        spec_mesh_coord(pos, x - 1, y, z)
    } else {
        spec_mesh_coord(pos, x, y, z)
    }
}

/// The five numbers of one vertex: position `b + off`, then texture coordinates `uv`.
pub open spec fn vertex_values(b: WorldPosition, off: (i64, i64, i64), uv: (i64, i64)) -> Seq<i64> {
    seq![
        (b.x + off.0) as i64,
        (b.y + off.1) as i64,
        (b.z + off.2) as i64,
        uv.0,
        uv.1,
    ]
}

/// The two triangles (six vertices) drawn for face `f` from corner `b`.
pub open spec fn face_vertices(f: Face, b: WorldPosition) -> Seq<i64> {
    match f {
        Face::NegZ => vertex_values(b, (0, 0, 0), (0, 0)) + vertex_values(b, (0, 1, 0), (0, 1))
            + vertex_values(b, (1, 1, 0), (1, 1)) + vertex_values(b, (1, 1, 0), (1, 1))
            + vertex_values(b, (1, 0, 0), (1, 0)) + vertex_values(b, (0, 0, 0), (0, 0)),
        Face::PosZ => vertex_values(b, (0, 0, 1), (0, 0)) + vertex_values(b, (1, 0, 1), (0, 1))
            + vertex_values(b, (1, 1, 1), (1, 1)) + vertex_values(b, (1, 1, 1), (1, 1))
            + vertex_values(b, (0, 1, 1), (1, 0)) + vertex_values(b, (0, 0, 1), (0, 0)),
        Face::PosX | Face::NegX => vertex_values(b, (1, 0, 0), (0, 0)) + vertex_values(
            b,
            (1, 1, 0),
            (0, 1),
        ) + vertex_values(b, (1, 1, 1), (1, 1)) + vertex_values(b, (1, 1, 1), (1, 1))
            + vertex_values(b, (1, 0, 1), (1, 0)) + vertex_values(b, (1, 0, 0), (0, 0)),
        Face::PosY => vertex_values(b, (0, 1, 0), (0, 0)) + vertex_values(b, (0, 1, 1), (0, 1))
            + vertex_values(b, (1, 1, 1), (1, 1)) + vertex_values(b, (1, 1, 1), (1, 1))
            + vertex_values(b, (1, 1, 0), (1, 0)) + vertex_values(b, (0, 1, 0), (0, 0)),
        Face::NegY => vertex_values(b, (0, 0, 0), (0, 0)) + vertex_values(b, (0, 0, 1), (0, 1))
            + vertex_values(b, (1, 0, 1), (1, 1)) + vertex_values(b, (1, 0, 1), (1, 1))
            + vertex_values(b, (1, 0, 0), (1, 0)) + vertex_values(b, (0, 0, 0), (0, 0)),
    }
}

/// Whether the mesher draws face `f` of cell (x, y, z) for kind `t`: the cell
/// holds kind `t` and the neighbour across the face does not. Above the top
/// layer the mesher compares with the constant row 16, so there only the cell
/// with z = 4 counts as covered; below the bottom layer it compares the layer
/// with itself, so no bottom face is drawn there.
pub open spec fn face_visible(c: Chunk, t: int, x: int, y: int, z: int, f: Face) -> bool {
    c.has_block(t, x, y, z) && match f {
        Face::NegZ => !c.has_block(t, x, y, z - 1),
        Face::PosZ => !c.has_block(t, x, y, z + 1),
        Face::PosX => !c.has_block(t, x + 1, y, z),
        Face::NegX => !c.has_block(t, x - 1, y, z),
        Face::PosY => if y + 1 < 256 {
            !c.has_block(t, x, y + 1, z)
        } else {
            z != 4
        },
        Face::NegY => y > 0 && !c.has_block(t, x, y - 1, z),
    }
}

/// The vertices drawn for face `f` of the cells (x, y, 1) .. (x, y, zend - 1) of kind `t`.
pub open spec fn row_mesh(c: Chunk, t: int, y: int, x: int, f: Face, zend: int) -> Seq<i64>
    decreases zend,
{
    if zend <= 1 {
        seq![]
    } else {
        row_mesh(c, t, y, x, f, zend - 1) + if face_visible(c, t, x, y, zend - 1, f) {
            face_vertices(f, face_base(c.spec_pos(), f, x, y, zend - 1))
        } else {
            seq![]
        }
    }
}

/// The vertices drawn for one padded x of one layer of kind `t`: the six faces
/// in turn, each along the owned z range.
pub open spec fn column_mesh(c: Chunk, t: int, y: int, x: int) -> Seq<i64> {
    row_mesh(c, t, y, x, Face::NegZ, 15) + row_mesh(c, t, y, x, Face::PosZ, 15) + row_mesh(
        c,
        t,
        y,
        x,
        Face::PosX,
        15,
    ) + row_mesh(c, t, y, x, Face::NegX, 15) + row_mesh(c, t, y, x, Face::PosY, 15) + row_mesh(
        c,
        t,
        y,
        x,
        Face::NegY,
        15,
    )
}

/// The vertices drawn for x = 1 .. xend - 1 of layer `y` of kind `t`.
pub open spec fn layer_mesh(c: Chunk, t: int, y: int, xend: int) -> Seq<i64>
    decreases xend,
{
    if xend <= 1 {
        seq![]
    } else {
        layer_mesh(c, t, y, xend - 1) + column_mesh(c, t, y, xend - 1)
    }
}

/// The vertices drawn for layers 0 .. yend - 1 of kind `t`.
pub open spec fn kind_mesh(c: Chunk, t: int, yend: int) -> Seq<i64>
    decreases yend,
{
    if yend <= 0 {
        seq![]
    } else {
        kind_mesh(c, t, yend - 1) + layer_mesh(c, t, yend - 1, 15)
    }
}

/// The vertices drawn for kinds 0 .. tend - 1.
pub open spec fn kinds_mesh(c: Chunk, tend: int) -> Seq<i64>
    decreases tend,
{
    if tend <= 0 {
        seq![]
    } else {
        kinds_mesh(c, tend - 1) + kind_mesh(c, tend - 1, 256)
    }
}

/// The whole mesh of a chunk.
pub open spec fn mesh_of(c: Chunk) -> Seq<i64> {
    kinds_mesh(c, 3)
}

/// A face towards -z is drawn where a cell is set and the one before it along z is not.
pub proof fn lemma_scheme_neg_z(r: u16, z: u16)
    requires
        1 <= z <= 14,
    ensures
        bit((!r & (r >> 1u16)) << 1u16, z) == (bit(r, z) && !bit(r, (z - 1) as u16)),
{
    assert(bit((!r & (r >> 1u16)) << 1u16, z) == (bit(r, z) && !bit(r, (z - 1) as u16))) by (bit_vector)
        requires
            1 <= z <= 14,
    ;
}

/// A face towards +z is drawn where a cell is set and the one after it along z is not.
pub proof fn lemma_scheme_pos_z(r: u16, z: u16)
    requires
        1 <= z <= 14,
    ensures
        bit((!r & (r << 1u16)) >> 1u16, z) == (bit(r, z) && !bit(r, (z + 1) as u16)),
{
    assert(bit((!r & (r << 1u16)) >> 1u16, z) == (bit(r, z) && !bit(r, (z + 1) as u16))) by (bit_vector)
        requires
            1 <= z <= 14,
    ;
}

/// A face towards a neighbouring row is drawn where this row is set and the neighbour is not.
pub proof fn lemma_scheme_across(r: u16, l: u16, z: u16)
    requires
        z < 16,
    ensures
        bit(r & !l, z) == (bit(r, z) && !bit(l, z)),
{
    assert(bit(r & !l, z) == (bit(r, z) && !bit(l, z))) by (bit_vector)
        requires
            z < 16,
    ;
}

/// The row 16 has only bit 4 set.
pub proof fn lemma_sixteen(z: u16)
    requires
        z < 16,
    ensures
        bit(16u16, z) == (z == 4),
{
    assert(bit(16u16, z) == (z == 4)) by (bit_vector)
        requires
            z < 16,
    ;
}


proof fn lemma_row_mesh_same(c1: Chunk, c2: Chunk, t: int, y: int, x: int, f: Face, zend: int)
    requires
        c1.spec_pos() == c2.spec_pos(),
        forall|tt: int, yy: int, xx: int| #[trigger] c1.row(tt, yy, xx) == c2.row(tt, yy, xx),
    ensures
        row_mesh(c1, t, y, x, f, zend) == row_mesh(c2, t, y, x, f, zend),
    decreases zend,
{
    if zend > 1 {
        lemma_row_mesh_same(c1, c2, t, y, x, f, zend - 1);
        assert(face_visible(c1, t, x, y, zend - 1, f) == face_visible(c2, t, x, y, zend - 1, f));
    }
}

proof fn lemma_layer_mesh_same(c1: Chunk, c2: Chunk, t: int, y: int, xend: int)
    requires
        c1.spec_pos() == c2.spec_pos(),
        forall|tt: int, yy: int, xx: int| #[trigger] c1.row(tt, yy, xx) == c2.row(tt, yy, xx),
    ensures
        layer_mesh(c1, t, y, xend) == layer_mesh(c2, t, y, xend),
    decreases xend,
{
    if xend > 1 {
        lemma_layer_mesh_same(c1, c2, t, y, xend - 1);
        let x = xend - 1;
        lemma_row_mesh_same(c1, c2, t, y, x, Face::NegZ, 15);
        lemma_row_mesh_same(c1, c2, t, y, x, Face::PosZ, 15);
        lemma_row_mesh_same(c1, c2, t, y, x, Face::PosX, 15);
        lemma_row_mesh_same(c1, c2, t, y, x, Face::NegX, 15);
        lemma_row_mesh_same(c1, c2, t, y, x, Face::PosY, 15);
        lemma_row_mesh_same(c1, c2, t, y, x, Face::NegY, 15);
    }
}

proof fn lemma_kind_mesh_same(c1: Chunk, c2: Chunk, t: int, yend: int)
    requires
        c1.spec_pos() == c2.spec_pos(),
        forall|tt: int, yy: int, xx: int| #[trigger] c1.row(tt, yy, xx) == c2.row(tt, yy, xx),
    ensures
        kind_mesh(c1, t, yend) == kind_mesh(c2, t, yend),
    decreases yend,
{
    if yend > 0 {
        lemma_kind_mesh_same(c1, c2, t, yend - 1);
        lemma_layer_mesh_same(c1, c2, t, yend - 1, 15);
    }
}

proof fn lemma_kinds_mesh_same(c1: Chunk, c2: Chunk, tend: int)
    requires
        c1.spec_pos() == c2.spec_pos(),
        forall|tt: int, yy: int, xx: int| #[trigger] c1.row(tt, yy, xx) == c2.row(tt, yy, xx),
    ensures
        kinds_mesh(c1, tend) == kinds_mesh(c2, tend),
    decreases tend,
{
    if tend > 0 {
        lemma_kinds_mesh_same(c1, c2, tend - 1);
        lemma_kind_mesh_same(c1, c2, tend - 1, 256);
    }
}

/// Law: the mesh is a function of the blocks and the grid position alone, so
/// rebuilding the mesh of a chunk whose blocks have not changed gives the
/// same mesh again.
pub proof fn lemma_mesh_determined_by_blocks(c1: Chunk, c2: Chunk)
    requires
        c1.spec_blocks() == c2.spec_blocks(),
        c1.spec_pos() == c2.spec_pos(),
    ensures
        mesh_of(c1) == mesh_of(c2),
{
    lemma_same_blocks_same_rows(c1, c2);
    lemma_kinds_mesh_same(c1, c2, 3);
}

/// Law: the mesh draws the cell that a world position addresses in its chunk
/// at exactly that world position.
pub proof fn lemma_mesh_coord_of_world_position(p: WorldPosition)
    ensures
        spec_mesh_coord(
            spec_chunk_pos(p),
            spec_chunk_rel_pos(p).x as int,
            spec_chunk_rel_pos(p).y as int,
            spec_chunk_rel_pos(p).z as int,
        ) == p,
{
    lemma_world_position_decomposes(p);
}

/// Law: the world position at which the mesh draws an owned cell (x, y, z)
/// of the chunk at `c` lies in that same chunk, and reading it back through
/// the chunk-relative position gives the cell (x, y, z) again.
pub proof fn lemma_mesh_coord_round_trip(c: ChunkPosition, x: int, y: int, z: int)
    requires
        i32::MIN <= c.x <= i32::MAX,
        i32::MIN <= c.y <= i32::MAX,
        1 <= x <= 14,
        0 <= y < 256,
        1 <= z <= 14,
    ensures
        spec_chunk_pos(spec_mesh_coord(c, x, y, z)) == c,
        spec_chunk_rel_pos(spec_mesh_coord(c, x, y, z)).spec_iterform() == (x as usize, y as usize, z as usize),
{
    let w = spec_mesh_coord(c, x, y, z);
    vstd::arithmetic::div_mod::lemma_fundamental_div_mod_converse(w.x as int, 14, c.x as int, x - 1);
    vstd::arithmetic::div_mod::lemma_fundamental_div_mod_converse(w.z as int, 14, c.y as int, z - 1);
}

/// Position of vertex `k` (five numbers per vertex) of a run of mesh numbers.
pub open spec fn vertex_pos(v: Seq<i64>, k: int) -> (int, int, int) {
    (v[5 * k] as int, v[5 * k + 1] as int, v[5 * k + 2] as int)
}

/// The coordinate of `p` across the plane of face `f` (x for the x faces,
/// y for the y faces, z for the z faces).
pub open spec fn across(f: Face, p: (int, int, int)) -> int {
    match f {
        Face::NegX | Face::PosX => p.0,
        Face::NegY | Face::PosY => p.1,
        Face::NegZ | Face::PosZ => p.2,
    }
}

/// The two coordinates of `p` within the plane of face `f`.
pub open spec fn along(f: Face, p: (int, int, int)) -> (int, int) {
    match f {
        Face::NegX | Face::PosX => (p.1, p.2),
        Face::NegY | Face::PosY => (p.0, p.2),
        Face::NegZ | Face::PosZ => (p.0, p.1),
    }
}

/// Whether face `f` points towards increasing coordinates.
pub open spec fn points_up(f: Face) -> bool {
    f == Face::PosX || f == Face::PosY || f == Face::PosZ
}

/// Law: the six vertices drawn for face `f` of the cell whose near corner is
/// at world position `w` form two triangles covering the unit square of that
/// face: the square lies in the plane through `w` (faces pointing down an
/// axis) or one unit further (faces pointing up it), each vertex is a corner
/// of the square, the two triangles share the diagonal (vertices 0 = 5 and
/// 2 = 3, at opposite corners), vertices 1 and 4 are the other two corners,
/// and every texture coordinate is 0 or 1.
pub proof fn lemma_face_is_unit_square(pos: ChunkPosition, f: Face, x: int, y: int, z: int)
    requires
        i32::MIN <= pos.x <= i32::MAX,
        i32::MIN <= pos.y <= i32::MAX,
        1 <= x <= 14,
        0 <= y < 256,
        1 <= z <= 14,
    ensures
        ({
            let wp = spec_mesh_coord(pos, x, y, z);
            let w = (wp.x as int, wp.y as int, wp.z as int);
            let v = face_vertices(f, face_base(pos, f, x, y, z));
            &&& v.len() == 30
            &&& forall|k: int| 0 <= k < 6 ==> {
                &&& across(f, #[trigger] vertex_pos(v, k)) == across(f, w) + if points_up(f) { 1int } else { 0int }
                &&& along(f, vertex_pos(v, k)).0 == along(f, w).0 || along(f, vertex_pos(v, k)).0 == along(f, w).0 + 1
                &&& along(f, vertex_pos(v, k)).1 == along(f, w).1 || along(f, vertex_pos(v, k)).1 == along(f, w).1 + 1
                &&& (v[5 * k + 3] == 0 || v[5 * k + 3] == 1)
                &&& (v[5 * k + 4] == 0 || v[5 * k + 4] == 1)
            }
            &&& vertex_pos(v, 0) == vertex_pos(v, 5)
            &&& vertex_pos(v, 2) == vertex_pos(v, 3)
            &&& along(f, vertex_pos(v, 0)).0 != along(f, vertex_pos(v, 2)).0
            &&& along(f, vertex_pos(v, 0)).1 != along(f, vertex_pos(v, 2)).1
            &&& along(f, vertex_pos(v, 1)).0 != along(f, vertex_pos(v, 4)).0
            &&& along(f, vertex_pos(v, 1)).1 != along(f, vertex_pos(v, 4)).1
            &&& vertex_pos(v, 1) != vertex_pos(v, 0)
            &&& vertex_pos(v, 1) != vertex_pos(v, 2)
        }),
{
    match f {
        Face::NegZ => lemma_square_of(pos, Face::NegZ, x, y, z),
        Face::PosZ => lemma_square_of(pos, Face::PosZ, x, y, z),
        Face::PosX => lemma_square_of(pos, Face::PosX, x, y, z),
        Face::NegX => lemma_square_of(pos, Face::NegX, x, y, z),
        Face::PosY => lemma_square_of(pos, Face::PosY, x, y, z),
        Face::NegY => lemma_square_of(pos, Face::NegY, x, y, z),
    }
}

#[verifier::rlimit(50)]
proof fn lemma_square_of(pos: ChunkPosition, f: Face, x: int, y: int, z: int)
    requires
        i32::MIN <= pos.x <= i32::MAX,
        i32::MIN <= pos.y <= i32::MAX,
        1 <= x <= 14,
        0 <= y < 256,
        1 <= z <= 14,
    ensures
        ({
            let wp = spec_mesh_coord(pos, x, y, z);
            let w = (wp.x as int, wp.y as int, wp.z as int);
            let v = face_vertices(f, face_base(pos, f, x, y, z));
            &&& v.len() == 30
            &&& forall|k: int| 0 <= k < 6 ==> {
                &&& across(f, #[trigger] vertex_pos(v, k)) == across(f, w) + if points_up(f) { 1int } else { 0int }
                &&& along(f, vertex_pos(v, k)).0 == along(f, w).0 || along(f, vertex_pos(v, k)).0 == along(f, w).0 + 1
                &&& along(f, vertex_pos(v, k)).1 == along(f, w).1 || along(f, vertex_pos(v, k)).1 == along(f, w).1 + 1
                &&& (v[5 * k + 3] == 0 || v[5 * k + 3] == 1)
                &&& (v[5 * k + 4] == 0 || v[5 * k + 4] == 1)
            }
            &&& vertex_pos(v, 0) == vertex_pos(v, 5)
            &&& vertex_pos(v, 2) == vertex_pos(v, 3)
            &&& along(f, vertex_pos(v, 0)).0 != along(f, vertex_pos(v, 2)).0
            &&& along(f, vertex_pos(v, 0)).1 != along(f, vertex_pos(v, 2)).1
            &&& along(f, vertex_pos(v, 1)).0 != along(f, vertex_pos(v, 4)).0
            &&& along(f, vertex_pos(v, 1)).1 != along(f, vertex_pos(v, 4)).1
            &&& vertex_pos(v, 1) != vertex_pos(v, 0)
            &&& vertex_pos(v, 1) != vertex_pos(v, 2)
        }),
{
    let wp = spec_mesh_coord(pos, x, y, z);
    let b = face_base(pos, f, x, y, z);
    let v = face_vertices(f, b);
    let w = (wp.x as int, wp.y as int, wp.z as int);
    assert(v.len() == 30);
    assert forall|k: int| 0 <= k < 6 implies {
        &&& across(f, #[trigger] vertex_pos(v, k)) == across(f, w) + if points_up(f) { 1int } else { 0int }
        &&& along(f, vertex_pos(v, k)).0 == along(f, w).0 || along(f, vertex_pos(v, k)).0 == along(f, w).0 + 1
        &&& along(f, vertex_pos(v, k)).1 == along(f, w).1 || along(f, vertex_pos(v, k)).1 == along(f, w).1 + 1
        &&& (v[5 * k + 3] == 0 || v[5 * k + 3] == 1)
        &&& (v[5 * k + 4] == 0 || v[5 * k + 4] == 1)
    } by {
        assert(k == 0 || k == 1 || k == 2 || k == 3 || k == 4 || k == 5);
    }
}

/// Law: going one cell further along z, the mesher adds the face `f` of that
/// cell exactly when the cell holds kind `t` and the neighbouring cell on the
/// side the face points to does not (for the top face of the top layer the
/// mesher takes cell z = 4 as covered; for the bottom face of the bottom
/// layer it draws nothing).
pub proof fn lemma_face_drawn_towards_empty_neighbour(c: Chunk, t: int, y: int, x: int, f: Face, z: int)
    requires
        0 <= y < 256,
        1 <= z <= 14,
    ensures
        row_mesh(c, t, y, x, f, z + 1) == row_mesh(c, t, y, x, f, z) + if c.has_block(t, x, y, z) && match f {
            Face::NegZ => !c.has_block(t, x, y, z - 1),
            Face::PosZ => !c.has_block(t, x, y, z + 1),
            Face::PosX => !c.has_block(t, x + 1, y, z),
            Face::NegX => !c.has_block(t, x - 1, y, z),
            Face::PosY => if y == 255 {
                z != 4
            } else {
                !c.has_block(t, x, y + 1, z)
            },
            Face::NegY => y != 0 && !c.has_block(t, x, y - 1, z),
        } {
            face_vertices(f, face_base(c.spec_pos(), f, x, y, z))
        } else {
            seq![]
        },
{
}

} // verus!
