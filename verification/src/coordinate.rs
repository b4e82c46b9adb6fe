use vstd::prelude::*;

use crate::chunk::{CHUNK_PADDING, CHUNK_SIZE};

verus! {

/// The value of `v` pushed into the range of `i32`, as a float-to-int cast does.
pub open spec fn saturate_i32(v: int) -> i32 {
    if v < i32::MIN {
        i32::MIN
    } else if v > i32::MAX {
        i32::MAX
    } else {
        v as i32
    }
}

/// The value of `v` pushed into the range of `usize`, as a float-to-int cast does.
pub open spec fn saturate_usize(v: int) -> usize {
    if v <= 0 {
        0
    } else if v >= usize::MAX {
        usize::MAX
    } else {
        v as usize
    }
}

fn saturating_i32(v: i64) -> (r: i32)
    ensures
        r == saturate_i32(v as int),
{
    if v < i32::MIN as i64 {
        i32::MIN
    } else if v > i32::MAX as i64 {
        i32::MAX
    } else {
        v as i32
    }
}

fn saturating_usize(v: i64) -> (r: usize)
    ensures
        r == saturate_usize(v as int),
{
    if v <= 0 {
        0
    } else if (v as u64) >= (usize::MAX as u64) {
        usize::MAX
    } else {
        v as usize
    }
}

/// Position of a chunk in the grid of chunks: `x` runs along the world's x axis,
/// `y` along the world's z axis.
#[derive(Clone, Copy, Debug, PartialEq, Eq, Structural)]
pub struct ChunkPosition {
    pub x: i64,
    pub y: i64,
}

impl ChunkPosition {
    pub fn new(x: i64, y: i64) -> (r: ChunkPosition)
        ensures
            r.x == x,
            r.y == y,
    {
        ChunkPosition { x, y }
    }
}

/// A block position counted from the corner of a chunk's padded block arrays.
#[derive(Clone, Copy, Debug, PartialEq, Eq, Structural)]
pub struct ChunkRelativePosition {
    pub x: i64,
    pub y: i64,
    pub z: i64,
}

impl ChunkRelativePosition {
    pub fn new(x: i64, y: i64, z: i64) -> (r: ChunkRelativePosition)
        ensures
            r.x == x,
            r.y == y,
            r.z == z,
    {
        ChunkRelativePosition { x, y, z }
    }
}

/// The integer block position in the world that contains a point.
#[derive(Clone, Copy, Debug, PartialEq, Eq, Structural)]
pub struct WorldPosition {
    pub x: i64,
    pub y: i64,
    pub z: i64,
}

/// Spec of the chunk that holds the block at world column (x, z).
pub open spec fn spec_chunk_pos(p: WorldPosition) -> ChunkPosition {
    ChunkPosition { x: (p.x as int / CHUNK_SIZE as int) as i64, y: (p.z as int / CHUNK_SIZE as int) as i64 }
}

/// Spec of where a world block lies inside its chunk's padded arrays.
pub open spec fn spec_chunk_rel_pos(p: WorldPosition) -> ChunkRelativePosition {
    ChunkRelativePosition {
        x: (p.x as int % CHUNK_SIZE as int + CHUNK_PADDING as int / 2) as i64,
        y: p.y,
        z: (p.z as int % CHUNK_SIZE as int + CHUNK_PADDING as int / 2) as i64,
    }
}

impl WorldPosition {
    pub fn new(x: i64, y: i64, z: i64) -> (r: WorldPosition)
        ensures
            r.x == x,
            r.y == y,
            r.z == z,
    {
        WorldPosition { x, y, z }
    }

    /// The chunk whose owned columns contain this position: the floor of x / 14 and of z / 14.
    pub fn chunk_pos(&self) -> (r: ChunkPosition)
        ensures
            r == spec_chunk_pos(*self),
    {
        let size = CHUNK_SIZE as i64;
        let cx = self.x.checked_div_euclid(size).unwrap();
        let cz = self.z.checked_div_euclid(size).unwrap();
        ChunkPosition { x: cx, y: cz }
    }

    /// The position inside the chunk's padded arrays: x and z taken modulo 14 and
    /// moved past the one row of padding; y kept.
    pub fn chunk_rel_pos(&self) -> (r: ChunkRelativePosition)
        ensures
            r == spec_chunk_rel_pos(*self),
    {
        let size = CHUNK_SIZE as i64;
        let pad = (CHUNK_PADDING / 2) as i64;
        let rx = self.x.checked_rem_euclid(size).unwrap();
        let rz = self.z.checked_rem_euclid(size).unwrap();
        ChunkRelativePosition { x: rx + pad, y: self.y, z: rz + pad }
    }
}

/// Something that can be read as three array indices.
pub trait Formable3D {
    spec fn spec_iterform(&self) -> (usize, usize, usize);

    fn iterform(&self) -> (r: (usize, usize, usize))
        ensures
            r == self.spec_iterform(),
    ;
}

impl Formable3D for ChunkRelativePosition {
    /// Each coordinate cast to an index: negative values become 0.
    open spec fn spec_iterform(&self) -> (usize, usize, usize) {
        (saturate_usize(self.x as int), saturate_usize(self.y as int), saturate_usize(self.z as int))
    }

    fn iterform(&self) -> (r: (usize, usize, usize)) {
        (saturating_usize(self.x), saturating_usize(self.y), saturating_usize(self.z))
    }
}

/// Something that names a key of the chunk table.
pub trait Hashable {
    spec fn spec_chunk_key(&self) -> (i32, i32);

    fn to_chunk_key(&self) -> (r: (i32, i32))
        ensures
            r == self.spec_chunk_key(),
    ;
}

impl Hashable for ChunkPosition {
    /// Both coordinates cast to `i32`, saturating at its bounds.
    open spec fn spec_chunk_key(&self) -> (i32, i32) {
        (saturate_i32(self.x as int), saturate_i32(self.y as int))
    }

    fn to_chunk_key(&self) -> (r: (i32, i32)) {
        (saturating_i32(self.x), saturating_i32(self.y))
    }
}

/// Law: a world position is its chunk's offset plus its place in the chunk:
/// the place is 1 .. 14 along x and z (past the padding row), and the height is kept.
pub proof fn lemma_world_position_decomposes(p: WorldPosition)
    ensures
        1 <= spec_chunk_rel_pos(p).x <= 14,
        1 <= spec_chunk_rel_pos(p).z <= 14,
        spec_chunk_rel_pos(p).y == p.y,
        p.x == 14 * spec_chunk_pos(p).x + spec_chunk_rel_pos(p).x - 1,
        p.z == 14 * spec_chunk_pos(p).y + spec_chunk_rel_pos(p).z - 1,
{
    vstd::arithmetic::div_mod::lemma_fundamental_div_mod(p.x as int, 14);
    vstd::arithmetic::div_mod::lemma_fundamental_div_mod(p.z as int, 14);
    vstd::arithmetic::div_mod::lemma_mod_bound(p.x as int, 14);
    vstd::arithmetic::div_mod::lemma_mod_bound(p.z as int, 14);
}

} // verus!
