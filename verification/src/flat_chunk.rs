use vstd::prelude::*;

use crate::chunk::bit;

verus! {

/// Side of a single-kind chunk along x and z.
pub const FLAT_CHUNK_SIZE: u16 = 16;
/// Number of layers of a single-kind chunk.
pub const FLAT_CHUNK_HEIGHT: u16 = 64;
/// Number of u16 rows of a single-kind chunk: one per layer and x.
pub const FLAT_ROW_COUNT: usize = 1024;

/// Whether (x, y, z) lies inside a single-kind chunk.
pub open spec fn in_flat_chunk(x: int, y: int, z: int) -> bool {
    0 <= x < 16 && 0 <= y < 64 && 0 <= z < 16
}

/// The eighteen coordinates (six corners) of the face towards +x drawn for cell (x, y, z).
pub open spec fn right_face_values(x: int, y: int, z: int) -> Seq<i64> {
    seq![
        (x + 1) as i64, y as i64, z as i64,
        (x + 1) as i64, (y + 1) as i64, z as i64,
        (x + 1) as i64, (y + 1) as i64, (z + 1) as i64,
        (x + 1) as i64, (y + 1) as i64, (z + 1) as i64,
        (x + 1) as i64, y as i64, (z + 1) as i64,
        (x + 1) as i64, y as i64, z as i64,
    ]
}

/// Whether the mesher of a single-kind chunk draws a face at bit `z` of row
/// `r`: where the bit differs from the next one along z (above bit 15 the row is empty).
pub open spec fn flat_face_drawn(r: u16, z: int) -> bool {
    bit(r, z as u16) != (z + 1 < 16 && bit(r, (z + 1) as u16))
}

/// A single-kind chunk of 16 x 64 x 16 cells: a bit per cell (bit z of the row
/// at layer y and x), the mesh last built, and whether the mesh is stale.
pub struct Chunk {
    blocks: Vec<u16>,
    mesh: Vec<i64>,
    dirty: bool,
}

/// The faces drawn for cells (x, y, 0) .. (x, y, zend - 1) of row `r`.
pub open spec fn flat_row_mesh(r: u16, x: int, y: int, zend: int) -> Seq<i64>
    decreases zend,
{
    if zend <= 0 {
        seq![]
    } else {
        flat_row_mesh(r, x, y, zend - 1) + if flat_face_drawn(r, zend - 1) {
            right_face_values(x, y, zend - 1)
        } else {
            seq![]
        }
    }
}

impl Chunk {
    pub closed spec fn wf(self) -> bool {
        self.blocks@.len() == FLAT_ROW_COUNT
    }

    /// The row of layer `y` at `x`.
    pub closed spec fn row(self, y: int, x: int) -> u16 {
        self.blocks@[y * 16 + x]
    }

    pub closed spec fn spec_mesh(self) -> Seq<i64> {
        self.mesh@
    }

    pub closed spec fn spec_dirty(self) -> bool {
        self.dirty
    }

    /// Whether cell (x, y, z) is set.
    pub open spec fn has_block(self, x: int, y: int, z: int) -> bool {
        bit(self.row(y, x), z as u16)
    }

    /// The faces drawn for layers 0 .. yend - 1 at `x`.
    pub open spec fn column_mesh(self, x: int, yend: int) -> Seq<i64>
        decreases yend,
    {
        if yend <= 0 {
            seq![]
        } else {
            self.column_mesh(x, yend - 1) + flat_row_mesh(self.row(yend - 1, x), x, yend - 1, 16)
        }
    }

    /// The faces drawn for x = 0 .. xend - 1, each over all layers.
    pub open spec fn mesh_upto(self, xend: int) -> Seq<i64>
        decreases xend,
    {
        if xend <= 0 {
            seq![]
        } else {
            self.mesh_upto(xend - 1) + self.column_mesh(xend - 1, 64)
        }
    }

    /// The mesh: eighteen coordinates (six corners) per face.
    pub fn mesh(&self) -> (r: &Vec<i64>)
        ensures
            r@ == self.spec_mesh(),
    {
        &self.mesh
    }

    /// Whether the mesh no longer matches the blocks.
    pub fn is_dirty(&self) -> (r: bool)
        ensures
            r == self.spec_dirty(),
    {
        self.dirty
    }

    /// Whether cell (x, y, z) is set.
    pub fn get(&self, x: usize, y: usize, z: usize) -> (r: bool)
        requires
            self.wf(),
            x < 16,
            y < 64,
            z < 16,
        ensures
            r == self.has_block(x as int, y as int, z as int),
    {
        (self.blocks[y * 16 + x] >> (z as u16)) & 1u16 == 1u16
    }

    /// Keeps, of the row at layer `y` and `x`, only bit `z`; `val` is not read.
    pub fn set(&mut self, x: usize, y: usize, z: usize, val: bool)
        requires
            old(self).wf(),
            x < 16,
            y < 64,
            z < 16,
        ensures
            final(self).wf(),
            final(self).spec_mesh() == old(self).spec_mesh(),
            final(self).spec_dirty() == old(self).spec_dirty(),
            final(self).row(y as int, x as int) == old(self).row(y as int, x as int) & (1u16 << (z as u16)),
            forall|yy: int, xx: int|
                0 <= yy < 64 && 0 <= xx < 16 && (yy != y || xx != x) ==> #[trigger] final(self).row(yy, xx)
                    == old(self).row(yy, xx),
    {
        let i = y * 16 + x;
        let r = self.blocks[i];
        self.blocks.set(i, r & (1u16 << (z as u16)));
    }

    /// Rebuilds the mesh: for every x, layer and z, the face towards +x of the
    /// cell where its bit differs from the next bit along z; marks the mesh current.
    pub fn build_mesh(&mut self)
        requires
            old(self).wf(),
        ensures
            final(self).wf(),
            final(self).spec_mesh() == old(self).mesh_upto(16),
            forall|yy: int, xx: int| #[trigger] final(self).row(yy, xx) == old(self).row(yy, xx),
            !final(self).spec_dirty(),
    {
        self.mesh.clear();
        let mut x: usize = 0;
        while x < FLAT_CHUNK_SIZE as usize
            invariant
                self.wf(),
                self.blocks == old(self).blocks,
                x <= 16,
                self.mesh@ == old(self).mesh_upto(x as int),
            decreases 16 - x,
        {
            let mut y: usize = 0;
            while y < FLAT_CHUNK_HEIGHT as usize
                invariant
                    self.wf(),
                    self.blocks == old(self).blocks,
                    x < 16,
                    y <= 64,
                    self.mesh@ == old(self).mesh_upto(x as int) + old(self).column_mesh(x as int, y as int),
                decreases 64 - y,
            {
                let r = self.blocks[y * 16 + x];
                let s = r ^ (r >> 1u16);
                let mut row = s;
                assert(s >> 0u16 == s) by (bit_vector);
                let mut z: usize = 0;
                let ghost start = self.mesh@;
                while z < FLAT_CHUNK_SIZE as usize
                    invariant
                        self.wf(),
                        self.blocks == old(self).blocks,
                        x < 16,
                        y < 64,
                        z <= 16,
                        r == old(self).row(y as int, x as int),
                        s == r ^ (r >> 1u16),
                        row == s >> (z as u16),
                        self.mesh@ == start + flat_row_mesh(r, x as int, y as int, z as int),
                    decreases 16 - z,
                {
                    let zz = z as u16;
                    assert((s >> zz) & 1u16 == 1u16 <==> (bit(r, zz) != (zz + 1 < 16 && bit(r, (zz + 1) as u16))))
                        by (bit_vector)
                        requires
                            s == r ^ (r >> 1u16),
                            zz < 16,
                    ;
                    if row & 1u16 == 1u16 {
                        let fx = x as i64;
                        let fy = y as i64;
                        let fz = z as i64;
                        let right_face: [i64; 18] = [
                            fx + 1, fy, fz, fx + 1, fy + 1, fz, fx + 1, fy + 1, fz + 1,
                            fx + 1, fy + 1, fz + 1, fx + 1, fy, fz + 1, fx + 1, fy, fz,
                        ];
                        let mut k: usize = 0;
                        let ghost before = self.mesh@;
                        while k < 18
                            invariant
                                k <= 18,
                                self.blocks == old(self).blocks,
                                self.mesh@ == before + right_face@.subrange(0, k as int),
                            decreases 18 - k,
                        {
                            self.mesh.push(right_face[k]);
                            assert(right_face@.subrange(0, k + 1) =~= right_face@.subrange(0, k as int).push(right_face@[k as int]));
                            k = k + 1;
                        }
                        assert(right_face@ =~= right_face_values(x as int, y as int, z as int));
                        assert(right_face@.subrange(0, 18) =~= right_face@);
                    }
                    assert(self.mesh@ =~= start + flat_row_mesh(r, x as int, y as int, z + 1));
                    assert((s >> zz) >> 1u16 == s >> ((zz + 1) as u16)) by (bit_vector)
                        requires
                            zz < 16,
                    ;
                    row = row >> 1u16;
                    z = z + 1;
                }
                assert(self.mesh@ =~= old(self).mesh_upto(x as int) + old(self).column_mesh(x as int, y + 1));
                y = y + 1;
            }
            assert(self.mesh@ =~= old(self).mesh_upto(x + 1));
            x = x + 1;
        }
        self.dirty = false;
    }
}

impl Default for Chunk {
    /// Layers 0 .. 4 full, the rest empty; no mesh yet, and it is stale.
    fn default() -> (r: Chunk)
        ensures
            r.wf(),
            r.spec_mesh() == Seq::<i64>::empty(),
            r.spec_dirty(),
            forall|yy: int, xx: int|
                0 <= yy < 64 && 0 <= xx < 16 ==> #[trigger] r.row(yy, xx) == if yy < 5 {
                    0xffffu16
                } else {
                    0u16
                },
    {
        let mut blocks: Vec<u16> = Vec::new();
        let mut i: usize = 0;
        while i < FLAT_ROW_COUNT
            invariant
                i <= FLAT_ROW_COUNT,
                blocks@.len() == i,
                forall|j: int| 0 <= j < i ==> #[trigger] blocks@[j] == if j < 80 {
                    0xffffu16
                } else {
                    0u16
                },
            decreases FLAT_ROW_COUNT - i,
        {
            if i < 5 * 16 {
                blocks.push(0b_1111_1111_1111_1111u16);
            } else {
                blocks.push(0u16);
            }
            i = i + 1;
        }
        let mesh = Vec::new();
        let dirty = true;
        Chunk { blocks, mesh, dirty }
    }
}

/// Law: `set` at (x, y, z) keeps that cell as it was and empties every
/// other cell of its row; `val` plays no part.
pub proof fn lemma_flat_set_keeps_one_cell(old: Chunk, new: Chunk, x: int, y: int, z: int, zz: int)
    requires
        in_flat_chunk(x, y, z),
        0 <= zz < 16,
        new.row(y, x) == old.row(y, x) & (1u16 << (z as u16)),
    ensures
        new.has_block(x, y, zz) == (zz == z && old.has_block(x, y, z)),
{
    let r = old.row(y, x);
    let a = z as u16;
    let b = zz as u16;
    assert(bit(r & (1u16 << a), b) == (b == a && bit(r, a))) by (bit_vector)
        requires
            a < 16,
            b < 16,
    ;
}

/// Position of corner `k` (three numbers per corner) of a run of mesh numbers.
pub open spec fn corner_pos(v: Seq<i64>, k: int) -> (int, int, int) {
    (v[3 * k] as int, v[3 * k + 1] as int, v[3 * k + 2] as int)
}

/// Law: the face drawn for cell (x, y, z) covers the unit square on the
/// cell's +x side: all six corners lie in the plane x + 1, at heights y or
/// y + 1 and depths z or z + 1; the two triangles share the diagonal
/// (corners 0 = 5 and 2 = 3, opposite each other) and corners 1 and 4 are
/// the other two corners of the square.
pub proof fn lemma_right_face_is_unit_square(x: int, y: int, z: int)
    requires
        0 <= x < 16,
        0 <= y < 64,
        0 <= z < 16,
    ensures
        ({
            let v = right_face_values(x, y, z);
            &&& v.len() == 18
            &&& forall|k: int| 0 <= k < 6 ==> {
                &&& (#[trigger] corner_pos(v, k)).0 == x + 1
                &&& (corner_pos(v, k).1 == y || corner_pos(v, k).1 == y + 1)
                &&& (corner_pos(v, k).2 == z || corner_pos(v, k).2 == z + 1)
            }
            &&& corner_pos(v, 0) == corner_pos(v, 5)
            &&& corner_pos(v, 2) == corner_pos(v, 3)
            &&& corner_pos(v, 0).1 != corner_pos(v, 2).1
            &&& corner_pos(v, 0).2 != corner_pos(v, 2).2
            &&& corner_pos(v, 1).1 != corner_pos(v, 4).1
            &&& corner_pos(v, 1).2 != corner_pos(v, 4).2
            &&& corner_pos(v, 1) != corner_pos(v, 0)
            &&& corner_pos(v, 1) != corner_pos(v, 2)
        }),
{
    let v = right_face_values(x, y, z);
    assert forall|k: int| 0 <= k < 6 implies {
        &&& (#[trigger] corner_pos(v, k)).0 == x + 1
        &&& (corner_pos(v, k).1 == y || corner_pos(v, k).1 == y + 1)
        &&& (corner_pos(v, k).2 == z || corner_pos(v, k).2 == z + 1)
    } by {
        assert(k == 0 || k == 1 || k == 2 || k == 3 || k == 4 || k == 5);
    }
}

/// Law: going one bit further along z, the mesher adds the face of that
/// cell exactly when the cell and the next one along z differ (one set, the
/// other empty; beyond bit 15 the row counts as empty).
pub proof fn lemma_flat_face_at_change(r: u16, x: int, y: int, z: int)
    requires
        0 <= z < 16,
    ensures
        flat_row_mesh(r, x, y, z + 1) == flat_row_mesh(r, x, y, z) + if (r >> (z as u16)) & 1u16 != if z
            == 15 {
            0u16
        } else {
            (r >> ((z + 1) as u16)) & 1u16
        } {
            right_face_values(x, y, z)
        } else {
            seq![]
        },
{
    let a = z as u16;
    assert(((r >> a) & 1u16 == 1u16) || ((r >> a) & 1u16 == 0u16)) by (bit_vector);
    if z < 15 {
        let b = (z + 1) as u16;
        assert(((r >> b) & 1u16 == 1u16) || ((r >> b) & 1u16 == 0u16)) by (bit_vector);
    }
}

} // verus!
