use vstd::prelude::*;

use crate::coordinate::{ChunkPosition, ChunkRelativePosition, Formable3D, WorldPosition};
use crate::mesh::{
    column_mesh, face_base, face_vertices, face_visible, kind_mesh, kinds_mesh, layer_mesh,
    lemma_scheme_across, lemma_scheme_neg_z, lemma_scheme_pos_z, lemma_sixteen, mesh_of, row_mesh,
    spec_mesh_coord, vertex_values, Face,
};

verus! {

/// Seed of the terrain noise.
pub const SEED: u32 = 12938;
/// Number of blocks along x and z that a chunk owns.
pub const CHUNK_SIZE: u16 = 14;
/// Extra rows kept around the owned blocks (one on each side).
pub const CHUNK_PADDING: u16 = 2;
/// Number of layers in a chunk.
pub const CHUNK_HEIGHT: u16 = 256;
/// Number of chunks visited around the viewer in each direction.
pub const RENDER_DISTANCE: i32 = 16;
/// Number of block kinds a chunk stores.
pub const BLOCK_TYPE_COUNT: usize = 3;

/// Index of a block kind.
pub type BlockTypeId = usize;

/// Number of u16 rows a chunk keeps: one per kind, layer and padded x.
pub const ROW_COUNT: usize = 12288;

/// Where the row of kind `t`, layer `y` and padded x `x` is kept
/// (kinds of 256 layers, layers of 16 rows).
pub open spec fn row_index(t: int, y: int, x: int) -> int {
    t * 4096 + y * 16 + x
}

/// Whether bit `z` of `r` is set.
pub open spec fn bit(r: u16, z: u16) -> bool {
    (r >> z) & 1u16 == 1u16
}

/// Whether (x, y, z) lies inside a chunk's padded block arrays.
pub open spec fn in_chunk(x: int, y: int, z: int) -> bool {
    0 <= x < 16 && 0 <= y < 256 && 0 <= z < 16
}

/// What cell (tt, xx, yy, zz) of a chunk holds after `set_block` at (x, y, z)
/// with `block_type`, given the chunk `old` before: a placed kind sets its own
/// cell; removing clears, for every kind, the cell one step further along z.
pub open spec fn cell_after_set(
    old: Chunk,
    block_type: Option<BlockTypeId>,
    x: int,
    y: int,
    z: int,
    tt: int,
    xx: int,
    yy: int,
    zz: int,
) -> bool {
    match block_type {
        Some(t) => old.has_block(tt, xx, yy, zz) || (tt == t && xx == x && yy == y && zz == z),
        None => old.has_block(tt, xx, yy, zz) && !(xx == x && yy == y && zz == z + 1),
    }
}

/// `new` is what `Chunk::set_block` makes of `old` for a block of `block_type`
/// at cell (x, y, z).
pub open spec fn chunk_after_set(
    new: Chunk,
    old: Chunk,
    block_type: Option<BlockTypeId>,
    x: int,
    y: int,
    z: int,
) -> bool {
    &&& new.wf()
    &&& new.spec_dirty()
    &&& new.spec_pos() == old.spec_pos()
    &&& new.spec_mesh() == old.spec_mesh()
    &&& forall|tt: int, xx: int, yy: int, zz: int|
        0 <= tt < BLOCK_TYPE_COUNT && in_chunk(xx, yy, zz) ==> #[trigger] new.has_block(tt, xx, yy, zz)
            == cell_after_set(old, block_type, x, y, z, tt, xx, yy, zz)
}

proof fn lemma_bit_or(r: u16, z: u16, w: u16)
    requires
        z < 16,
        w < 16,
    ensures
        bit(r | (1u16 << z), w) == (bit(r, w) || w == z),
{
    assert(bit(r | (1u16 << z), w) == (bit(r, w) || w == z)) by (bit_vector)
        requires
            z < 16,
            w < 16,
    ;
}

proof fn lemma_bit_clear(r: u16, z: u16, w: u16)
    requires
        z < 16,
        w < 16,
    ensures
        bit(r & !(1u16 << z), w) == (bit(r, w) && w != z),
{
    assert(bit(r & !(1u16 << z), w) == (bit(r, w) && w != z)) by (bit_vector)
        requires
            z < 16,
            w < 16,
    ;
}

/// One vertex of the mesh: a world position and texture coordinates.
pub struct Vertex {
    pub pos: [i64; 3],
    pub uv: [i64; 2],
}

impl Vertex {
    pub fn new(pos: (i64, i64, i64), uv: (i64, i64)) -> (r: Vertex)
        ensures
            r.pos@ == seq![pos.0, pos.1, pos.2],
            r.uv@ == seq![uv.0, uv.1],
    {
        let r = Vertex { pos: [pos.0, pos.1, pos.2], uv: [uv.0, uv.1] };
        assert(r.pos@ =~= seq![pos.0, pos.1, pos.2]);
        assert(r.uv@ =~= seq![uv.0, uv.1]);
        r
    }

    /// The vertex at offset `pos` from the world position `pos_std`.
    pub fn relative(pos_std: &WorldPosition, pos: (i64, i64, i64), uv: (i64, i64)) -> (r: Vertex)
        requires
            i64::MIN <= pos.0 + pos_std.x <= i64::MAX,
            i64::MIN <= pos.1 + pos_std.y <= i64::MAX,
            i64::MIN <= pos.2 + pos_std.z <= i64::MAX,
        ensures
            r.pos@ == seq![
                (pos.0 + pos_std.x) as i64,
                (pos.1 + pos_std.y) as i64,
                (pos.2 + pos_std.z) as i64,
            ],
            r.uv@ == seq![uv.0, uv.1],
    {
        Self::new((pos.0 + pos_std.x, pos.1 + pos_std.y, pos.2 + pos_std.z), uv)
    }

    /// The five numbers of the vertex as the mesh stores them: position, then uv.
    pub fn to_slice(self) -> (r: [i64; 5])
        requires
            self.pos@.len() == 3,
            self.uv@.len() == 2,
        ensures
            r@ == self.pos@ + self.uv@,
    {
        let r = [self.pos[0], self.pos[1], self.pos[2], self.uv[0], self.uv[1]];
        assert(r@ =~= self.pos@ + self.uv@);
        r
    }
}

/// Bound on the coordinates of the corners from which faces are drawn.
pub open spec fn small_position(b: WorldPosition) -> bool {
    -0x1_0000_0000_0000 <= b.x <= 0x1_0000_0000_0000
    && -0x1_0000_0000_0000 <= b.y <= 0x1_0000_0000_0000
    && -0x1_0000_0000_0000 <= b.z <= 0x1_0000_0000_0000
}

fn push_vertex(mesh: &mut Vec<i64>, b: &WorldPosition, off: (i64, i64, i64), uv: (i64, i64))
    requires
        small_position(*b),
        0 <= off.0 <= 1,
        0 <= off.1 <= 1,
        0 <= off.2 <= 1,
    ensures
        final(mesh)@ == old(mesh)@ + vertex_values(*b, off, uv),
{
    let v = Vertex::relative(b, off, uv);
    let s = v.to_slice();
    mesh.push(s[0]);
    mesh.push(s[1]);
    mesh.push(s[2]);
    mesh.push(s[3]);
    mesh.push(s[4]);
    assert(mesh@ =~= old(mesh)@ + vertex_values(*b, off, uv));
}

fn push_face(mesh: &mut Vec<i64>, f: Face, b: &WorldPosition)
    requires
        small_position(*b),
    ensures
        final(mesh)@ == old(mesh)@ + face_vertices(f, *b),
{
    match f {
        Face::NegZ => {
            push_vertex(mesh, b, (0, 0, 0), (0, 0));
            push_vertex(mesh, b, (0, 1, 0), (0, 1));
            push_vertex(mesh, b, (1, 1, 0), (1, 1));
            push_vertex(mesh, b, (1, 1, 0), (1, 1));
            push_vertex(mesh, b, (1, 0, 0), (1, 0));
            push_vertex(mesh, b, (0, 0, 0), (0, 0));
        },
        Face::PosZ => {
            push_vertex(mesh, b, (0, 0, 1), (0, 0));
            push_vertex(mesh, b, (1, 0, 1), (0, 1));
            push_vertex(mesh, b, (1, 1, 1), (1, 1));
            push_vertex(mesh, b, (1, 1, 1), (1, 1));
            push_vertex(mesh, b, (0, 1, 1), (1, 0));
            push_vertex(mesh, b, (0, 0, 1), (0, 0));
        },
        Face::PosX | Face::NegX => {
            push_vertex(mesh, b, (1, 0, 0), (0, 0));
            push_vertex(mesh, b, (1, 1, 0), (0, 1));
            push_vertex(mesh, b, (1, 1, 1), (1, 1));
            push_vertex(mesh, b, (1, 1, 1), (1, 1));
            push_vertex(mesh, b, (1, 0, 1), (1, 0));
            push_vertex(mesh, b, (1, 0, 0), (0, 0));
        },
        Face::PosY => {
            push_vertex(mesh, b, (0, 1, 0), (0, 0));
            push_vertex(mesh, b, (0, 1, 1), (0, 1));
            push_vertex(mesh, b, (1, 1, 1), (1, 1));
            push_vertex(mesh, b, (1, 1, 1), (1, 1));
            push_vertex(mesh, b, (1, 1, 0), (1, 0));
            push_vertex(mesh, b, (0, 1, 0), (0, 0));
        },
        Face::NegY => {
            push_vertex(mesh, b, (0, 0, 0), (0, 0));
            push_vertex(mesh, b, (0, 0, 1), (0, 1));
            push_vertex(mesh, b, (1, 0, 1), (1, 1));
            push_vertex(mesh, b, (1, 0, 1), (1, 1));
            push_vertex(mesh, b, (1, 0, 0), (1, 0));
            push_vertex(mesh, b, (0, 0, 0), (0, 0));
        },
    }
    assert(mesh@ =~= old(mesh)@ + face_vertices(f, *b));
}

/// A chunk: for each block kind, a bit per cell of its padded 16 x 256 x 16 block
/// arrays (the bit for z of the row at kind, layer and x), the mesh last built
/// from them, its place in the grid of chunks, and whether the mesh is stale.
pub struct Chunk {
    blocks: Vec<u16>,
    mesh: Vec<i64>,
    pos: ChunkPosition,
    dirty: bool,
}

impl Chunk {
    /// The chunk keeps one row per kind, layer and padded x, and its grid
    /// position fits in `i32`, as every chunk key does.
    pub closed spec fn wf(self) -> bool {
        &&& self.blocks@.len() == ROW_COUNT
        &&& i32::MIN <= self.pos.x <= i32::MAX
        &&& i32::MIN <= self.pos.y <= i32::MAX
    }

    pub closed spec fn row(self, t: int, y: int, x: int) -> u16 {
        self.blocks@[row_index(t, y, x)]
    }

    /// Whether the cell (x, y, z) holds a block of kind `t`.
    pub open spec fn has_block(self, t: int, x: int, y: int, z: int) -> bool {
        bit(self.row(t, y, x), z as u16)
    }

    /// The kind that `get_block` reports at (x, y, z): the first kind present there.
    pub open spec fn block_at(self, x: int, y: int, z: int) -> Option<BlockTypeId> {
        if self.has_block(0, x, y, z) {
            Some(0)
        } else if self.has_block(1, x, y, z) {
            Some(1)
        } else if self.has_block(2, x, y, z) {
            Some(2)
        } else {
            None
        }
    }

    pub closed spec fn spec_pos(self) -> ChunkPosition {
        self.pos
    }

    pub closed spec fn spec_dirty(self) -> bool {
        self.dirty
    }

    pub closed spec fn spec_mesh(self) -> Seq<i64> {
        self.mesh@
    }

    /// The kind of block at `pos`, or `None` where the cell is empty: the
    /// first kind, in the order of the kinds, whose bit is set there.
    pub fn get_block(&self, pos: &ChunkRelativePosition) -> (r: Option<BlockTypeId>)
        requires
            self.wf(),
            pos.spec_iterform().0 < 16,
            pos.spec_iterform().1 < 256,
            pos.spec_iterform().2 < 16,
        ensures
            r == self.block_at(
                pos.spec_iterform().0 as int,
                pos.spec_iterform().1 as int,
                pos.spec_iterform().2 as int,
            ),
    {
        let (x, y, z) = pos.iterform();
        let mut t: usize = 0;
        while t < BLOCK_TYPE_COUNT
            invariant
                self.wf(),
                (x, y, z) == pos.spec_iterform(),
                x < 16,
                y < 256,
                z < 16,
                t <= BLOCK_TYPE_COUNT,
                forall|tt: int| 0 <= tt < t ==> !self.has_block(tt, x as int, y as int, z as int),
            decreases BLOCK_TYPE_COUNT - t,
        {
            let row = self.blocks[t * 4096 + y * 16 + x];
            if (row >> (z as u16)) & 1u16 == 1u16 {
                assert(self.has_block(t as int, x as int, y as int, z as int));
                return Some(t);
            }
            t = t + 1;
        }
        None
    }

    /// Places a block of kind `t` at `pos` (`Some(t)`), or clears, in every
    /// kind, the cell one step further along z (`None`); marks the mesh stale.
    pub fn set_block(&mut self, pos: ChunkRelativePosition, block_type: Option<BlockTypeId>)
        requires
            old(self).wf(),
            pos.spec_iterform().0 < 16,
            pos.spec_iterform().1 < 256,
            match block_type {
                Some(t) => t < BLOCK_TYPE_COUNT && pos.spec_iterform().2 < 16,
                None => pos.spec_iterform().2 + 1 < 16,
            },
        ensures
            chunk_after_set(
                *final(self),
                *old(self),
                block_type,
                pos.spec_iterform().0 as int,
                pos.spec_iterform().1 as int,
                pos.spec_iterform().2 as int,
            ),
    {
        let (x, y, z) = pos.iterform();
        match block_type {
            Some(t) => {
                let i = t * 4096 + y * 16 + x;
                let r = self.blocks[i];
                self.blocks.set(i, r | (1u16 << (z as u16)));
                proof {
                    assert forall|tt: int, xx: int, yy: int, zz: int|
                        0 <= tt < BLOCK_TYPE_COUNT && in_chunk(xx, yy, zz) implies #[trigger] self.has_block(
                        tt,
                        xx,
                        yy,
                        zz,
                    ) == cell_after_set(*old(self), block_type, x as int, y as int, z as int, tt, xx, yy, zz) by {
                        if row_index(tt, yy, xx) == i {
                            lemma_bit_or(r, z as u16, zz as u16);
                        }
                    }
                }
            },
            None => {
                let mut t: usize = 0;
                while t < BLOCK_TYPE_COUNT
                    invariant
                        self.wf(),
                        self.pos == old(self).pos,
                        self.mesh == old(self).mesh,
                        (x, y, z) == pos.spec_iterform(),
                        x < 16,
                        y < 256,
                        z + 1 < 16,
                        t <= BLOCK_TYPE_COUNT,
                        forall|tt: int, xx: int, yy: int, zz: int|
                            0 <= tt < BLOCK_TYPE_COUNT && in_chunk(xx, yy, zz) ==> #[trigger] self.has_block(
                                tt,
                                xx,
                                yy,
                                zz,
                            ) == if tt < t {
                                cell_after_set(*old(self), None, x as int, y as int, z as int, tt, xx, yy, zz)
                            } else {
                                old(self).has_block(tt, xx, yy, zz)
                            },
                    decreases BLOCK_TYPE_COUNT - t,
                {
                    let i = t * 4096 + y * 16 + x;
                    let r = self.blocks[i];
                    let ghost before = *self;
                    self.blocks.set(i, r & !(1u16 << ((z + 1) as u16)));
                    proof {
                        assert forall|tt: int, xx: int, yy: int, zz: int|
                            0 <= tt < BLOCK_TYPE_COUNT && in_chunk(xx, yy, zz) implies #[trigger] self.has_block(
                            tt,
                            xx,
                            yy,
                            zz,
                        ) == if tt < t + 1 {
                            cell_after_set(*old(self), None, x as int, y as int, z as int, tt, xx, yy, zz)
                        } else {
                            old(self).has_block(tt, xx, yy, zz)
                        } by {
                            assert(before.has_block(tt, xx, yy, zz) == if tt < t {
                                cell_after_set(*old(self), None, x as int, y as int, z as int, tt, xx, yy, zz)
                            } else {
                                old(self).has_block(tt, xx, yy, zz)
                            });
                            if row_index(tt, yy, xx) == i {
                                lemma_bit_clear(r, (z + 1) as u16, zz as u16);
                            }
                        }
                    }
                    t = t + 1;
                }
            },
        }
        let ghost pre = *self;
        self.dirty = true;
        assert forall|tt: int, xx: int, yy: int, zz: int|
            0 <= tt < BLOCK_TYPE_COUNT && in_chunk(xx, yy, zz) implies #[trigger] self.has_block(tt, xx, yy, zz)
                == pre.has_block(tt, xx, yy, zz) by {
            assert(self.row(tt, yy, xx) == pre.row(tt, yy, xx));
        }
    }
}

impl Chunk {
    /// Whether the mesh no longer matches the blocks.
    pub fn is_dirty(&self) -> (r: bool)
        ensures
            r == self.spec_dirty(),
    {
        self.dirty
    }

    /// Marks the mesh as no longer matching the blocks.
    pub fn mark_dirty(&mut self)
        ensures
            final(self).spec_dirty(),
            final(self).spec_blocks() == old(self).spec_blocks(),
            final(self).spec_pos() == old(self).spec_pos(),
            final(self).spec_mesh() == old(self).spec_mesh(),
            old(self).wf() ==> final(self).wf(),
            forall|tt: int, xx: int, yy: int| #[trigger] final(self).row(tt, yy, xx) == old(self).row(tt, yy, xx),
    {
        self.dirty = true;
    }

    /// The grid position of the chunk.
    pub fn pos(&self) -> (r: ChunkPosition)
        ensures
            r == self.spec_pos(),
    {
        self.pos
    }

    /// The mesh: five numbers per vertex (x, y, z, u, v), six vertices per face.
    pub fn mesh(&self) -> (r: &Vec<i64>)
        ensures
            r@ == self.spec_mesh(),
    {
        &self.mesh
    }

    /// The number of vertices the renderer draws from the mesh: its length over three.
    pub fn vertex_count(&self) -> (r: usize)
        ensures
            r == self.spec_mesh().len() / 3,
    {
        self.mesh.len() / 3
    }

    pub closed spec fn spec_blocks(self) -> Seq<u16> {
        self.blocks@
    }

    /// The world position of the near corner of cell (x, y, z).
    fn mesh_coord(&self, x: usize, y: usize, z: usize) -> (r: WorldPosition)
        requires
            self.wf(),
            x <= 16,
            y < 256,
            z <= 16,
        ensures
            r == spec_mesh_coord(self.spec_pos(), x as int, y as int, z as int),
            small_position(r),
    {
        let pad = (CHUNK_PADDING / 2) as i64;
        let size = CHUNK_SIZE as i64;
        WorldPosition::new(
            (x as i64 - pad) + size * self.pos.x,
            y as i64,
            (z as i64 - pad) + size * self.pos.y,
        )
    }

    /// Appends the faces `f` of the cells (x, y, 1) .. (x, y, 14) of kind `t`
    /// whose bit is set in `scheme`.
    fn emit_faces(&self, mesh: &mut Vec<i64>, scheme: u16, f: Face, t: usize, y: usize, x: usize)
        requires
            self.wf(),
            t < BLOCK_TYPE_COUNT,
            y < 256,
            1 <= x <= 14,
            forall|z: int| 1 <= z <= 14 ==> bit(scheme, z as u16) == #[trigger] face_visible(
                *self,
                t as int,
                x as int,
                y as int,
                z,
                f,
            ),
        ensures
            final(mesh)@ == old(mesh)@ + row_mesh(*self, t as int, y as int, x as int, f, 15),
    {
        let mut z: usize = 1;
        while z <= CHUNK_SIZE as usize
            invariant
                self.wf(),
                t < BLOCK_TYPE_COUNT,
                y < 256,
                1 <= x <= 14,
                1 <= z <= 15,
                forall|z: int| 1 <= z <= 14 ==> bit(scheme, z as u16) == #[trigger] face_visible(
                    *self,
                    t as int,
                    x as int,
                    y as int,
                    z,
                    f,
                ),
                mesh@ == old(mesh)@ + row_mesh(*self, t as int, y as int, x as int, f, z as int),
            decreases 15 - z,
        {
            let ghost before = mesh@;
            assert(face_visible(*self, t as int, x as int, y as int, z as int, f) == bit(scheme, z as u16));
            if (scheme >> (z as u16)) & 1u16 == 1u16 {
                let pos = if f == Face::NegX {
                    self.mesh_coord(x - 1, y, z)
                } else {
                    self.mesh_coord(x, y, z)
                };
                assert(pos == face_base(self.spec_pos(), f, x as int, y as int, z as int));
                push_face(mesh, f, &pos);
            }
            assert(mesh@ =~= old(mesh)@ + row_mesh(*self, t as int, y as int, x as int, f, z + 1));
            z = z + 1;
        }
    }
    /// Appends the vertices of the six faces of padded x `x` of layer `y` of kind `t`.
    fn emit_column(&self, mesh: &mut Vec<i64>, t: usize, y: usize, x: usize)
        requires
            self.wf(),
            t < BLOCK_TYPE_COUNT,
            y < 256,
            1 <= x <= 14,
        ensures
            final(mesh)@ == old(mesh)@ + column_mesh(*self, t as int, y as int, x as int),
    {
        let row = self.blocks[t * 4096 + y * 16 + x];
        let ghost ti = t as int;
        let ghost xi = x as int;
        let ghost yi = y as int;

        // (-Z): set cells whose predecessor along z is empty.
        let render_scheme = (!row & (row >> 1u16)) << 1u16;
        assert forall|z: int| 1 <= z <= 14 implies bit(render_scheme, z as u16) == #[trigger] face_visible(
            *self, ti, xi, yi, z, Face::NegZ) by {
            lemma_scheme_neg_z(row, z as u16);
        }
        self.emit_faces(mesh, render_scheme, Face::NegZ, t, y, x);

        // (+Z): set cells whose successor along z is empty.
        let render_scheme = (!row & (row << 1u16)) >> 1u16;
        assert forall|z: int| 1 <= z <= 14 implies bit(render_scheme, z as u16) == #[trigger] face_visible(
            *self, ti, xi, yi, z, Face::PosZ) by {
            lemma_scheme_pos_z(row, z as u16);
        }
        self.emit_faces(mesh, render_scheme, Face::PosZ, t, y, x);

        // (+X): compared with the row at x + 1.
        let left_row = self.blocks[t * 4096 + y * 16 + (x + 1)];
        let render_scheme = row & !left_row;
        assert forall|z: int| 1 <= z <= 14 implies bit(render_scheme, z as u16) == #[trigger] face_visible(
            *self, ti, xi, yi, z, Face::PosX) by {
            lemma_scheme_across(row, left_row, z as u16);
        }
        self.emit_faces(mesh, render_scheme, Face::PosX, t, y, x);

        // (-X): compared with the row at x - 1.
        let right_row = self.blocks[t * 4096 + y * 16 + (x - 1)];
        let render_scheme = row & !right_row;
        assert forall|z: int| 1 <= z <= 14 implies bit(render_scheme, z as u16) == #[trigger] face_visible(
            *self, ti, xi, yi, z, Face::NegX) by {
            lemma_scheme_across(row, right_row, z as u16);
        }
        self.emit_faces(mesh, render_scheme, Face::NegX, t, y, x);

        // (+Y): compared with the layer above; above the top the row 16 stands in.
        let next_layer_row = if y + 1 < CHUNK_HEIGHT as usize {
            self.blocks[t * 4096 + (y + 1) * 16 + x]
        } else {
            16u16
        };
        let render_scheme = row & !next_layer_row;
        assert forall|z: int| 1 <= z <= 14 implies bit(render_scheme, z as u16) == #[trigger] face_visible(
            *self, ti, xi, yi, z, Face::PosY) by {
            lemma_scheme_across(row, next_layer_row, z as u16);
            lemma_sixteen(z as u16);
        }
        self.emit_faces(mesh, render_scheme, Face::PosY, t, y, x);

        // (-Y): compared with the layer below; the bottom layer is compared with itself.
        let past_layer_row = if y >= 1 {
            self.blocks[t * 4096 + (y - 1) * 16 + x]
        } else {
            row
        };
        let render_scheme = row & !past_layer_row;
        assert forall|z: int| 1 <= z <= 14 implies bit(render_scheme, z as u16) == #[trigger] face_visible(
            *self, ti, xi, yi, z, Face::NegY) by {
            lemma_scheme_across(row, past_layer_row, z as u16);
        }
        self.emit_faces(mesh, render_scheme, Face::NegY, t, y, x);

        assert(mesh@ =~= old(mesh)@ + column_mesh(*self, ti, yi, xi));
    }

    /// The mesh of the chunk as it stands, without touching the chunk.
    fn build_mesh(&self) -> (mesh: Vec<i64>)
        requires
            self.wf(),
        ensures
            mesh@ == mesh_of(*self),
    {
        let mut mesh: Vec<i64> = Vec::new();
        let mut t: usize = 0;
        while t < BLOCK_TYPE_COUNT
            invariant
                self.wf(),
                t <= BLOCK_TYPE_COUNT,
                mesh@ == kinds_mesh(*self, t as int),
            decreases BLOCK_TYPE_COUNT - t,
        {
            let mut y: usize = 0;
            while y < CHUNK_HEIGHT as usize
                invariant
                    self.wf(),
                    t < BLOCK_TYPE_COUNT,
                    y <= 256,
                    mesh@ == kinds_mesh(*self, t as int) + kind_mesh(*self, t as int, y as int),
                decreases 256 - y,
            {
                let mut x: usize = 1;
                while x <= CHUNK_SIZE as usize
                    invariant
                        self.wf(),
                        t < BLOCK_TYPE_COUNT,
                        y < 256,
                        1 <= x <= 15,
                        mesh@ == kinds_mesh(*self, t as int) + kind_mesh(*self, t as int, y as int)
                            + layer_mesh(*self, t as int, y as int, x as int),
                    decreases 15 - x,
                {
                    self.emit_column(&mut mesh, t, y, x);
                    assert(mesh@ =~= kinds_mesh(*self, t as int) + kind_mesh(*self, t as int, y as int)
                        + layer_mesh(*self, t as int, y as int, x + 1));
                    x = x + 1;
                }
                assert(mesh@ =~= kinds_mesh(*self, t as int) + kind_mesh(*self, t as int, y + 1));
                y = y + 1;
            }
            assert(mesh@ =~= kinds_mesh(*self, t + 1));
            t = t + 1;
        }
        mesh
    }

    /// Rebuilds the mesh from the blocks and marks it current.
    pub fn gen_mesh(&mut self)
        requires
            old(self).wf(),
        ensures
            final(self).wf(),
            final(self).spec_mesh() == mesh_of(*old(self)),
            final(self).spec_blocks() == old(self).spec_blocks(),
            final(self).spec_pos() == old(self).spec_pos(),
            !final(self).spec_dirty(),
    {
        let mesh = self.build_mesh();
        self.mesh = mesh;
        self.dirty = false;
    }
}

/// Whether column (xx, zz), layer yy comes before column (x, z), layer y in
/// the order in which the terrain is filled (x, then z, then y).
pub open spec fn filled_before(x: int, z: int, y: int, xx: int, zz: int, yy: int) -> bool {
    xx < x || (xx == x && (zz < z || (zz == z && yy < y)))
}

/// The terrain height that `heights` gives for column (x, z) of the padded arrays.
pub open spec fn column_height(heights: Seq<i32>, x: int, z: int) -> int {
    heights[x * 16 + z] as int
}

impl Chunk {
    /// Fills, in kind 1, every cell of each column up to and including the
    /// column's height in `heights` (given x-major, 16 by 16); marks the mesh stale.
    pub fn fill_terrain(&mut self, heights: &Vec<i32>)
        requires
            old(self).wf(),
            heights@.len() == 256,
        ensures
            final(self).wf(),
            final(self).spec_dirty(),
            final(self).spec_pos() == old(self).spec_pos(),
            final(self).spec_mesh() == old(self).spec_mesh(),
            forall|tt: int, xx: int, yy: int, zz: int|
                0 <= tt < BLOCK_TYPE_COUNT && in_chunk(xx, yy, zz) ==> #[trigger] final(self).has_block(
                    tt,
                    xx,
                    yy,
                    zz,
                ) == (old(self).has_block(tt, xx, yy, zz) || (tt == 1 && yy <= heights@[xx * 16 + zz] as int)),
    {
        self.dirty = true;
        let mut x: usize = 0;
        while x < 16
            invariant
                self.wf(),
                self.spec_dirty(),
                self.spec_pos() == old(self).spec_pos(),
                self.spec_mesh() == old(self).spec_mesh(),
                heights@.len() == 256,
                x <= 16,
                forall|tt: int, xx: int, yy: int, zz: int|
                    0 <= tt < BLOCK_TYPE_COUNT && in_chunk(xx, yy, zz) ==> #[trigger] self.has_block(
                        tt,
                        xx,
                        yy,
                        zz,
                    ) == (old(self).has_block(tt, xx, yy, zz) || (tt == 1 && yy <= column_height(
                        heights@,
                        xx,
                        zz,
                    ) && xx < x)),
            decreases 16 - x,
        {
            let mut z: usize = 0;
            while z < 16
                invariant
                    self.wf(),
                    self.spec_dirty(),
                    self.spec_pos() == old(self).spec_pos(),
                    self.spec_mesh() == old(self).spec_mesh(),
                    heights@.len() == 256,
                    x < 16,
                    z <= 16,
                    forall|tt: int, xx: int, yy: int, zz: int|
                        0 <= tt < BLOCK_TYPE_COUNT && in_chunk(xx, yy, zz) ==> #[trigger] self.has_block(
                            tt,
                            xx,
                            yy,
                            zz,
                        ) == (old(self).has_block(tt, xx, yy, zz) || (tt == 1 && yy <= column_height(
                            heights@,
                            xx,
                            zz,
                        ) && filled_before(x as int, z as int, 0, xx, zz, yy))),
                decreases 16 - z,
            {
                let height = heights[x * 16 + z];
                let mut y: usize = 0;
                while y < CHUNK_HEIGHT as usize
                    invariant
                        self.wf(),
                        self.spec_dirty(),
                        self.spec_pos() == old(self).spec_pos(),
                        self.spec_mesh() == old(self).spec_mesh(),
                        heights@.len() == 256,
                        x < 16,
                        z < 16,
                        y <= 256,
                        height == heights@[x * 16 + z],
                        forall|tt: int, xx: int, yy: int, zz: int|
                            0 <= tt < BLOCK_TYPE_COUNT && in_chunk(xx, yy, zz) ==> #[trigger] self.has_block(
                                tt,
                                xx,
                                yy,
                                zz,
                            ) == (old(self).has_block(tt, xx, yy, zz) || (tt == 1 && yy
                                <= column_height(heights@, xx, zz) && filled_before(
                                x as int,
                                z as int,
                                y as int,
                                xx,
                                zz,
                                yy,
                            ))),
                    decreases 256 - y,
                {
                    if (y as i32) <= height {
                        let ghost before = *self;
                        self.set_block(ChunkRelativePosition::new(x as i64, y as i64, z as i64), Some(1));
                        assert forall|tt: int, xx: int, yy: int, zz: int|
                            0 <= tt < BLOCK_TYPE_COUNT && in_chunk(xx, yy, zz) implies #[trigger] self.has_block(
                            tt,
                            xx,
                            yy,
                            zz,
                        ) == (old(self).has_block(tt, xx, yy, zz) || (tt == 1 && yy <= column_height(
                            heights@,
                            xx,
                            zz,
                        ) && filled_before(x as int, z as int, y + 1, xx, zz, yy))) by {
                            assert(before.has_block(tt, xx, yy, zz) == (old(self).has_block(tt, xx, yy, zz) || (tt == 1 && yy
                                <= column_height(heights@, xx, zz) && filled_before(
                                x as int, z as int, y as int, xx, zz, yy))));
                        }
                    }
                    y = y + 1;
                }
                assert forall|tt: int, xx: int, yy: int, zz: int|
                    0 <= tt < BLOCK_TYPE_COUNT && in_chunk(xx, yy, zz) implies #[trigger] self.has_block(tt, xx, yy, zz)
                        == (old(self).has_block(tt, xx, yy, zz) || (tt == 1 && yy <= column_height(heights@, xx, zz)
                        && filled_before(x as int, z + 1, 0, xx, zz, yy))) by {
                    assert(filled_before(x as int, z as int, 256, xx, zz, yy) == filled_before(x as int, z + 1, 0, xx, zz, yy));
                }
                z = z + 1;
            }
            x = x + 1;
        }
    }

    /// A chunk at `pos` whose only blocks are the terrain columns of kind 1
    /// given by `heights`; its mesh is empty and stale.
    pub fn new(pos: ChunkPosition, heights: &Vec<i32>) -> (r: Chunk)
        requires
            i32::MIN <= pos.x <= i32::MAX,
            i32::MIN <= pos.y <= i32::MAX,
            heights@.len() == 256,
        ensures
            r.wf(),
            r.spec_pos() == pos,
            r.spec_mesh() == Seq::<i64>::empty(),
            r.spec_dirty(),
            forall|tt: int, xx: int, yy: int, zz: int|
                0 <= tt < BLOCK_TYPE_COUNT && in_chunk(xx, yy, zz) ==> #[trigger] r.has_block(tt, xx, yy, zz)
                    == (tt == 1 && yy <= heights@[xx * 16 + zz] as int),
    {
        let mut blocks: Vec<u16> = Vec::new();
        let mut i: usize = 0;
        while i < ROW_COUNT
            invariant
                i <= ROW_COUNT,
                blocks@.len() == i,
                forall|j: int| 0 <= j < i ==> blocks@[j] == 0u16,
            decreases ROW_COUNT - i,
        {
            blocks.push(0u16);
            i = i + 1;
        }
        let mut chunk = Chunk { blocks, mesh: Vec::new(), pos, dirty: true };
        assert forall|tt: int, xx: int, yy: int, zz: int|
            0 <= tt < BLOCK_TYPE_COUNT && in_chunk(xx, yy, zz) implies !#[trigger] chunk.has_block(tt, xx, yy, zz) by {
            let zz16 = zz as u16;
            assert(chunk.row(tt, yy, xx) == 0u16);
            assert(!bit(0u16, zz16)) by (bit_vector);
        }
        chunk.fill_terrain(heights);
        chunk
    }
}


/// Law: after a block of kind `t` is placed at a cell, reading the cell gives
/// a block of kind at most `t`: `t` itself unless a kind before `t` was there.
pub proof fn lemma_place_then_get(old: Chunk, new: Chunk, t: BlockTypeId, x: int, y: int, z: int)
    requires
        t < BLOCK_TYPE_COUNT,
        in_chunk(x, y, z),
        chunk_after_set(new, old, Some(t), x, y, z),
    ensures
        new.block_at(x, y, z) == if old.block_at(x, y, z) matches Some(k) && k < t {
            old.block_at(x, y, z)
        } else {
            Some(t)
        },
{
    assert(new.has_block(0, x, y, z) == cell_after_set(old, Some(t), x, y, z, 0, x, y, z));
    assert(new.has_block(1, x, y, z) == cell_after_set(old, Some(t), x, y, z, 1, x, y, z));
    assert(new.has_block(2, x, y, z) == cell_after_set(old, Some(t), x, y, z, 2, x, y, z));
}

/// Law: removing at (x, y, z) empties the cell one step further along z in
/// every kind, and leaves the cell (x, y, z) itself as it was.
pub proof fn lemma_remove_then_get(old: Chunk, new: Chunk, x: int, y: int, z: int)
    requires
        in_chunk(x, y, z + 1),
        0 <= z,
        chunk_after_set(new, old, None, x, y, z),
    ensures
        new.block_at(x, y, z + 1) == None::<BlockTypeId>,
        new.block_at(x, y, z) == old.block_at(x, y, z),
{
    assert(new.has_block(0, x, y, z + 1) == cell_after_set(old, None, x, y, z, 0, x, y, z + 1));
    assert(new.has_block(1, x, y, z + 1) == cell_after_set(old, None, x, y, z, 1, x, y, z + 1));
    assert(new.has_block(2, x, y, z + 1) == cell_after_set(old, None, x, y, z, 2, x, y, z + 1));
    assert(new.has_block(0, x, y, z) == cell_after_set(old, None, x, y, z, 0, x, y, z));
    assert(new.has_block(1, x, y, z) == cell_after_set(old, None, x, y, z, 1, x, y, z));
    assert(new.has_block(2, x, y, z) == cell_after_set(old, None, x, y, z, 2, x, y, z));
}

/// Law: placing a block changes what is read at no other cell.
pub proof fn lemma_place_keeps_other_cells(
    old: Chunk,
    new: Chunk,
    t: BlockTypeId,
    x: int,
    y: int,
    z: int,
    xx: int,
    yy: int,
    zz: int,
)
    requires
        t < BLOCK_TYPE_COUNT,
        in_chunk(xx, yy, zz),
        !(xx == x && yy == y && zz == z),
        chunk_after_set(new, old, Some(t), x, y, z),
    ensures
        new.block_at(xx, yy, zz) == old.block_at(xx, yy, zz),
{
    assert(new.has_block(0, xx, yy, zz) == cell_after_set(old, Some(t), x, y, z, 0, xx, yy, zz));
    assert(new.has_block(1, xx, yy, zz) == cell_after_set(old, Some(t), x, y, z, 1, xx, yy, zz));
    assert(new.has_block(2, xx, yy, zz) == cell_after_set(old, Some(t), x, y, z, 2, xx, yy, zz));
}

/// Law: placing the same block twice leaves the cells as placing it once.
pub proof fn lemma_place_idempotent(
    c0: Chunk,
    c1: Chunk,
    c2: Chunk,
    t: BlockTypeId,
    x: int,
    y: int,
    z: int,
)
    requires
        t < BLOCK_TYPE_COUNT,
        chunk_after_set(c1, c0, Some(t), x, y, z),
        chunk_after_set(c2, c1, Some(t), x, y, z),
    ensures
        forall|tt: int, xx: int, yy: int, zz: int|
            0 <= tt < BLOCK_TYPE_COUNT && in_chunk(xx, yy, zz) ==> #[trigger] c2.has_block(tt, xx, yy, zz)
                == c1.has_block(tt, xx, yy, zz),
{
    assert forall|tt: int, xx: int, yy: int, zz: int|
        0 <= tt < BLOCK_TYPE_COUNT && in_chunk(xx, yy, zz) implies #[trigger] c2.has_block(tt, xx, yy, zz)
            == c1.has_block(tt, xx, yy, zz) by {
        assert(c1.has_block(tt, xx, yy, zz) == cell_after_set(c0, Some(t), x, y, z, tt, xx, yy, zz));
    }
}


/// Two chunks with the same block rows read the same at every row.
pub proof fn lemma_same_blocks_same_rows(c1: Chunk, c2: Chunk)
    requires
        c1.spec_blocks() == c2.spec_blocks(),
    ensures
        forall|t: int, y: int, x: int| #[trigger] c1.row(t, y, x) == c2.row(t, y, x),
{
}

/// Law: a chunk freshly built from terrain heights has no overhangs: below
/// every filled cell of its column, every cell is filled too.
pub proof fn lemma_terrain_is_solid(c: Chunk, heights: Seq<i32>, x: int, y: int, y2: int, z: int)
    requires
        forall|tt: int, xx: int, yy: int, zz: int|
            0 <= tt < BLOCK_TYPE_COUNT && in_chunk(xx, yy, zz) ==> #[trigger] c.has_block(tt, xx, yy, zz)
                == (tt == 1 && yy <= heights[xx * 16 + zz] as int),
        in_chunk(x, y, z),
        0 <= y2 <= y,
        c.has_block(1, x, y, z),
    ensures
        c.has_block(1, x, y2, z),
        c.block_at(x, y2, z) == Some(1usize),
{
    assert(c.has_block(0, x, y2, z) == (0 == 1 && y2 <= heights[x * 16 + z] as int));
    assert(c.has_block(1, x, y2, z) == (1 == 1 && y2 <= heights[x * 16 + z] as int));
}

/// Law: how a column of a freshly built chunk is filled depends on that
/// column's own entry of `heights` alone: two chunks built from height lists
/// that agree at column (x, z) agree on every cell of that column, whatever
/// the other columns' heights.
pub proof fn lemma_column_depends_on_own_height(
    c1: Chunk,
    h1: Seq<i32>,
    c2: Chunk,
    h2: Seq<i32>,
    t: int,
    x: int,
    y: int,
    z: int,
)
    requires
        forall|tt: int, xx: int, yy: int, zz: int|
            0 <= tt < BLOCK_TYPE_COUNT && in_chunk(xx, yy, zz) ==> #[trigger] c1.has_block(tt, xx, yy, zz)
                == (tt == 1 && yy <= h1[xx * 16 + zz] as int),
        forall|tt: int, xx: int, yy: int, zz: int|
            0 <= tt < BLOCK_TYPE_COUNT && in_chunk(xx, yy, zz) ==> #[trigger] c2.has_block(tt, xx, yy, zz)
                == (tt == 1 && yy <= h2[xx * 16 + zz] as int),
        0 <= t < BLOCK_TYPE_COUNT,
        in_chunk(x, y, z),
        h1[x * 16 + z] == h2[x * 16 + z],
    ensures
        c1.has_block(t, x, y, z) == c2.has_block(t, x, y, z),
        c1.has_block(t, x, y, z) == (t == 1 && y <= h1[x * 16 + z] as int),
{
    assert(c1.has_block(t, x, y, z) == (t == 1 && y <= h1[x * 16 + z] as int));
    assert(c2.has_block(t, x, y, z) == (t == 1 && y <= h2[x * 16 + z] as int));
}

} // verus!
