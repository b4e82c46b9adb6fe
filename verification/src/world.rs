use vstd::prelude::*;

use std::collections::HashMap;

use crate::chunk::{
    chunk_after_set, in_chunk, BlockTypeId, Chunk, BLOCK_TYPE_COUNT, CHUNK_HEIGHT,
    RENDER_DISTANCE,
};
use crate::coordinate::{
    spec_chunk_pos, spec_chunk_rel_pos, ChunkPosition, Formable3D, Hashable, WorldPosition,
};
use crate::chunk::{lemma_place_then_get, lemma_remove_then_get};
use crate::coordinate::lemma_world_position_decomposes;
use crate::mesh::mesh_of;

verus! {

/// Why a change to the world was refused.
#[derive(Clone, Copy, Debug, PartialEq, Eq, Structural)]
pub enum WorldError {
    /// No chunk is loaded under the key of the position.
    MissingChunk,
}

impl WorldError {
    /// The text the error is reported with.
    pub fn message(&self) -> (r: &'static str)
        ensures
            r@ == "Chunk entry does not exist ({}, {})."@,
    {
        match self {
            WorldError::MissingChunk => "Chunk entry does not exist ({}, {}).",
        }
    }
}

/// What `visit_nearby_chunk` found under a chunk key.
#[derive(Clone, Copy, Debug, PartialEq, Eq, Structural)]
pub enum NearbyChunk {
    /// No chunk is loaded there: one has to be built.
    Missing,
    /// The chunk's mesh was current and is left as it was.
    Current,
    /// The chunk's mesh was stale and has been rebuilt: it has to be uploaded.
    Remeshed,
}

/// The number that a chunk key is filed under in the table: distinct keys
/// give distinct numbers.
pub open spec fn key_code(k: (i32, i32)) -> i64 {
    (k.0 as int * 0x1_0000_0000 + (k.1 as int - i32::MIN as int)) as i64
}

fn encode_key(k: (i32, i32)) -> (r: i64)
    ensures
        r == key_code(k),
{
    (k.0 as i64) * 0x1_0000_0000 + ((k.1 as i64) - (i32::MIN as i64))
}

proof fn lemma_key_code_injective(a: (i32, i32), b: (i32, i32))
    ensures
        key_code(a) == key_code(b) ==> a == b,
{
}

/// The key of the chunk that holds world position `p`.
pub open spec fn world_key(p: WorldPosition) -> (i32, i32) {
    spec_chunk_pos(p).spec_chunk_key()
}

/// The cell of its chunk that world position `p` addresses.
pub open spec fn world_cell(p: WorldPosition) -> (usize, usize, usize) {
    spec_chunk_rel_pos(p).spec_iterform()
}

/// The loaded chunks, filed by chunk key.
pub struct VoxelWorld {
    world: HashMap<i64, Chunk>,
}

impl VoxelWorld {
    /// The loaded chunks by key.
    pub closed spec fn chunks(self) -> Map<(i32, i32), Chunk> {
        Map::new(
            |k: (i32, i32)| self.world@.contains_key(key_code(k)),
            |k: (i32, i32)| self.world@[key_code(k)],
        )
    }

    /// What `get_block` reads at world position `p`: the kind in the cell of
    /// the chunk loaded there, or `None` where no chunk is loaded.
    pub open spec fn block_at(self, p: WorldPosition) -> Option<BlockTypeId> {
        if self.chunks().contains_key(world_key(p)) {
            self.chunks()[world_key(p)].block_at(
                world_cell(p).0 as int,
                world_cell(p).1 as int,
                world_cell(p).2 as int,
            )
        } else {
            None
        }
    }

    /// Every loaded chunk is well formed.
    pub closed spec fn wf(self) -> bool {
        forall|c: i64| #[trigger] self.world@.contains_key(c) ==> self.world@[c].wf()
    }

    /// A world with no chunk loaded.
    pub fn new() -> (r: VoxelWorld)
        ensures
            r.wf(),
            r.chunks() == Map::<(i32, i32), Chunk>::empty(),
    {
        let r = VoxelWorld { world: HashMap::new() };
        assert(r.chunks() =~= Map::<(i32, i32), Chunk>::empty());
        r
    }

    /// The chunk loaded under the key of `pos`, if any.
    pub fn chunk(&self, pos: &ChunkPosition) -> (r: Option<&Chunk>)
        requires
            self.wf(),
        ensures
            match r {
                Some(c) => self.chunks().contains_key(pos.spec_chunk_key()) && *c == self.chunks()[pos.spec_chunk_key()]
                    && c.wf(),
                None => !self.chunks().contains_key(pos.spec_chunk_key()),
            },
    {
        let code = encode_key(pos.to_chunk_key());
        self.world.get(&code)
    }
}

impl Default for VoxelWorld {
    fn default() -> (r: VoxelWorld)
        ensures
            r.wf(),
            r.chunks() == Map::<(i32, i32), Chunk>::empty(),
    {
        VoxelWorld::new()
    }
}

impl VoxelWorld {
    /// Places (`Some`) or removes (`None`) a block at world position `pos` in
    /// the chunk loaded there. Positions outside the layers 0 .. 255 are left
    /// alone; a missing chunk is an error and changes nothing.
    pub fn set_block(&mut self, pos: &WorldPosition, block_type: Option<BlockTypeId>) -> (r: Result<(), WorldError>)
        requires
            old(self).wf(),
            0 <= pos.y < CHUNK_HEIGHT && old(self).chunks().contains_key(world_key(*pos)) ==> (
            block_type matches Some(t) ==> t < BLOCK_TYPE_COUNT),
        ensures
            final(self).wf(),
            !(0 <= pos.y < CHUNK_HEIGHT) ==> r is Ok && final(self).chunks() == old(self).chunks(),
            0 <= pos.y < CHUNK_HEIGHT && !old(self).chunks().contains_key(world_key(*pos)) ==> r == Err::<(), WorldError>(
                WorldError::MissingChunk,
            ) && final(self).chunks() == old(self).chunks(),
            0 <= pos.y < CHUNK_HEIGHT && old(self).chunks().contains_key(world_key(*pos)) ==> {
                &&& r is Ok
                &&& final(self).chunks().contains_key(world_key(*pos))
                &&& chunk_after_set(
                    final(self).chunks()[world_key(*pos)],
                    old(self).chunks()[world_key(*pos)],
                    block_type,
                    world_cell(*pos).0 as int,
                    world_cell(*pos).1 as int,
                    world_cell(*pos).2 as int,
                )
                &&& final(self).chunks().remove(world_key(*pos)) == old(self).chunks().remove(world_key(*pos))
            },
    {
        if pos.y >= 0 && pos.y < CHUNK_HEIGHT as i64 {
            let key = pos.chunk_pos().to_chunk_key();
            let code = encode_key(key);
            let ghost old_world = self.world@;
            match self.world.remove(&code) {
                None => {
                    assert(self.chunks() =~= old(self).chunks());
                    return Err(WorldError::MissingChunk);
                },
                Some(mut chunk) => {
                    let ghost before = chunk;
                    chunk.mark_dirty();
                    let rel = pos.chunk_rel_pos();
                    chunk.set_block(rel, block_type);
                    self.world.insert(code, chunk);
                    proof {
                        assert forall|k: (i32, i32)| k != key implies key_code(k) != code by {
                            lemma_key_code_injective(k, key);
                        }
                        assert(self.world@ == old_world.insert(code, chunk));
                        assert(self.chunks().remove(key) =~= old(self).chunks().remove(key));
                        assert forall|tt: int, xx: int, yy: int, zz: int|
                            0 <= tt < BLOCK_TYPE_COUNT && in_chunk(xx, yy, zz) implies #[trigger] before.has_block(tt, xx, yy, zz)
                            == old(self).chunks()[key].has_block(tt, xx, yy, zz) by {}
                    }
                },
            }
        } else {
            assert(self.chunks() =~= old(self).chunks());
        }
        Ok(())
    }

    /// The kind of block at world position `pos`, or `None` where no chunk is
    /// loaded or the cell is empty.
    pub fn get_block(&self, pos: &WorldPosition) -> (r: Option<BlockTypeId>)
        requires
            self.wf(),
            self.chunks().contains_key(world_key(*pos)) ==> pos.y < CHUNK_HEIGHT,
        ensures
            r == self.block_at(*pos),
    {
        let code = encode_key(pos.chunk_pos().to_chunk_key());
        match self.world.get(&code) {
            Some(chunk) => chunk.get_block(&pos.chunk_rel_pos()),
            None => None,
        }
    }

    /// Loads a chunk at `pos` built from the terrain columns `heights`,
    /// replacing any chunk under the same key.
    pub fn build_chunk(&mut self, pos: &ChunkPosition, heights: &Vec<i32>)
        requires
            old(self).wf(),
            i32::MIN <= pos.x <= i32::MAX,
            i32::MIN <= pos.y <= i32::MAX,
            heights@.len() == 256,
        ensures
            final(self).wf(),
            final(self).chunks().contains_key(pos.spec_chunk_key()),
            final(self).chunks().remove(pos.spec_chunk_key()) == old(self).chunks().remove(pos.spec_chunk_key()),
            ({
                let c = final(self).chunks()[pos.spec_chunk_key()];
                &&& c.wf()
                &&& c.spec_pos() == *pos
                &&& c.spec_mesh() == Seq::<i64>::empty()
                &&& c.spec_dirty()
                &&& forall|tt: int, xx: int, yy: int, zz: int|
                    0 <= tt < BLOCK_TYPE_COUNT && in_chunk(xx, yy, zz) ==> #[trigger] c.has_block(tt, xx, yy, zz)
                        == (tt == 1 && yy <= heights@[xx * 16 + zz] as int)
            }),
    {
        let key = pos.to_chunk_key();
        let code = encode_key(key);
        let chunk = Chunk::new(*pos, heights);
        self.world.insert(code, chunk);
        proof {
            assert forall|k: (i32, i32)| k != key implies key_code(k) != code by {
                lemma_key_code_injective(k, key);
            }
            assert(self.chunks().remove(key) =~= old(self).chunks().remove(key));
        }
    }

    /// Looks at the chunk under the key of `pos`: reports it missing, leaves a
    /// current one alone, or rebuilds the mesh of a stale one.
    pub fn visit_nearby_chunk(&mut self, pos: &ChunkPosition) -> (r: NearbyChunk)
        requires
            old(self).wf(),
        ensures
            final(self).wf(),
            r == NearbyChunk::Missing <==> !old(self).chunks().contains_key(pos.spec_chunk_key()),
            r == NearbyChunk::Current <==> (old(self).chunks().contains_key(pos.spec_chunk_key())
                && !old(self).chunks()[pos.spec_chunk_key()].spec_dirty()),
            r != NearbyChunk::Remeshed ==> final(self).chunks() == old(self).chunks(),
            r == NearbyChunk::Remeshed ==> {
                let old_c = old(self).chunks()[pos.spec_chunk_key()];
                let c = final(self).chunks()[pos.spec_chunk_key()];
                &&& final(self).chunks().contains_key(pos.spec_chunk_key())
                &&& final(self).chunks().remove(pos.spec_chunk_key()) == old(self).chunks().remove(pos.spec_chunk_key())
                &&& c.wf()
                &&& c.spec_mesh() == mesh_of(old_c)
                &&& c.spec_blocks() == old_c.spec_blocks()
                &&& c.spec_pos() == old_c.spec_pos()
                &&& !c.spec_dirty()
            },
    {
        let key = pos.to_chunk_key();
        let code = encode_key(key);
        let ghost old_world = self.world@;
        proof {
            assert forall|k: (i32, i32)| k != key implies key_code(k) != code by {
                lemma_key_code_injective(k, key);
            }
        }
        match self.world.remove(&code) {
            None => {
                assert(self.chunks() =~= old(self).chunks());
                NearbyChunk::Missing
            },
            Some(mut chunk) => {
                if chunk.is_dirty() {
                    chunk.gen_mesh();
                    self.world.insert(code, chunk);
                    assert(self.chunks().remove(key) =~= old(self).chunks().remove(key));
                    NearbyChunk::Remeshed
                } else {
                    self.world.insert(code, chunk);
                    assert(self.world@ =~= old_world);
                    assert(self.chunks() =~= old(self).chunks());
                    NearbyChunk::Current
                }
            },
        }
    }
}

/// The `i`-th chunk position of the square of side 33 around chunk key
/// `center`, column by column (x outer, then y).
pub open spec fn nearby_position(center: (i32, i32), i: int) -> ChunkPosition {
    ChunkPosition {
        x: (center.0 - RENDER_DISTANCE + i / 33) as i64,
        y: (center.1 - RENDER_DISTANCE + i % 33) as i64,
    }
}

/// The chunk positions within the render distance of the chunk that holds
/// `center`, x from low to high, and for each x, y from low to high.
pub fn nearby_chunk_positions(center: &WorldPosition) -> (r: Vec<ChunkPosition>)
    requires
        i32::MIN + RENDER_DISTANCE <= world_key(*center).0 <= i32::MAX - RENDER_DISTANCE,
        i32::MIN + RENDER_DISTANCE <= world_key(*center).1 <= i32::MAX - RENDER_DISTANCE,
    ensures
        r@.len() == 33 * 33,
        forall|i: int| 0 <= i < 33 * 33 ==> #[trigger] r@[i] == nearby_position(world_key(*center), i),
{
    let key = center.chunk_pos().to_chunk_key();
    let lo_x = key.0 - RENDER_DISTANCE;
    let lo_y = key.1 - RENDER_DISTANCE;
    let mut r: Vec<ChunkPosition> = Vec::new();
    let mut dx: i32 = 0;
    while dx <= 2 * RENDER_DISTANCE
        invariant
            key == world_key(*center),
            lo_x == key.0 - RENDER_DISTANCE,
            lo_y == key.1 - RENDER_DISTANCE,
            i32::MIN + RENDER_DISTANCE <= key.0 <= i32::MAX - RENDER_DISTANCE,
            i32::MIN + RENDER_DISTANCE <= key.1 <= i32::MAX - RENDER_DISTANCE,
            0 <= dx <= 33,
            r@.len() == dx * 33,
            forall|i: int| 0 <= i < r@.len() ==> #[trigger] r@[i] == nearby_position(key, i),
        decreases 33 - dx,
    {
        let cx = lo_x + dx;
        let mut dy: i32 = 0;
        while dy <= 2 * RENDER_DISTANCE
            invariant
                key == world_key(*center),
                lo_x == key.0 - RENDER_DISTANCE,
                lo_y == key.1 - RENDER_DISTANCE,
                i32::MIN + RENDER_DISTANCE <= key.0 <= i32::MAX - RENDER_DISTANCE,
                i32::MIN + RENDER_DISTANCE <= key.1 <= i32::MAX - RENDER_DISTANCE,
                0 <= dx < 33,
                cx == lo_x + dx,
                0 <= dy <= 33,
                r@.len() == dx * 33 + dy,
                forall|i: int| 0 <= i < r@.len() ==> #[trigger] r@[i] == nearby_position(key, i),
            decreases 33 - dy,
        {
            let cy = lo_y + dy;
            let ghost n = r@.len() as int;
            assert(n / 33 == dx && n % 33 == dy) by {
                vstd::arithmetic::div_mod::lemma_fundamental_div_mod_converse(n, 33, dx as int, dy as int);
            }
            r.push(ChunkPosition::new(cx as i64, cy as i64));
            dy = dy + 1;
        }
        dx = dx + 1;
    }
    r
}

/// Law: once `set_block` has placed a block of kind `t` at `p` (a layer in
/// range and a loaded chunk), reading `p` gives kind `t`, or the kind before
/// `t` that was already in that cell.
pub proof fn lemma_world_place_then_get(old: VoxelWorld, new: VoxelWorld, p: WorldPosition, t: BlockTypeId)
    requires
        t < BLOCK_TYPE_COUNT,
        0 <= p.y < CHUNK_HEIGHT,
        old.chunks().contains_key(world_key(p)),
        new.chunks().contains_key(world_key(p)),
        chunk_after_set(
            new.chunks()[world_key(p)],
            old.chunks()[world_key(p)],
            Some(t),
            world_cell(p).0 as int,
            world_cell(p).1 as int,
            world_cell(p).2 as int,
        ),
    ensures
        new.block_at(p) == if old.block_at(p) matches Some(k) && k < t {
            old.block_at(p)
        } else {
            Some(t)
        },
{
    lemma_world_position_decomposes(p);
    lemma_place_then_get(
        old.chunks()[world_key(p)],
        new.chunks()[world_key(p)],
        t,
        world_cell(p).0 as int,
        world_cell(p).1 as int,
        world_cell(p).2 as int,
    );
}

/// Law: once `set_block` has removed at `p` (a layer in range and a loaded
/// chunk), the position one step further along z reads empty when it lies in
/// the same chunk, while `p` itself reads as before.
pub proof fn lemma_world_remove_then_get(old: VoxelWorld, new: VoxelWorld, p: WorldPosition)
    requires
        0 <= p.y < CHUNK_HEIGHT,
        p.z < i64::MAX,
        p.z % 14 != 13,
        old.chunks().contains_key(world_key(p)),
        new.chunks().contains_key(world_key(p)),
        chunk_after_set(
            new.chunks()[world_key(p)],
            old.chunks()[world_key(p)],
            None,
            world_cell(p).0 as int,
            world_cell(p).1 as int,
            world_cell(p).2 as int,
        ),
    ensures
        new.block_at(WorldPosition { x: p.x, y: p.y, z: (p.z + 1) as i64 }) == None::<BlockTypeId>,
        new.block_at(p) == old.block_at(p),
{
    let q = WorldPosition { x: p.x, y: p.y, z: (p.z + 1) as i64 };
    lemma_world_position_decomposes(p);
    lemma_world_position_decomposes(q);
    vstd::arithmetic::div_mod::lemma_fundamental_div_mod(p.z as int, 14);
    vstd::arithmetic::div_mod::lemma_mod_bound(p.z as int, 14);
    vstd::arithmetic::div_mod::lemma_fundamental_div_mod_converse(
        q.z as int,
        14,
        p.z as int / 14,
        p.z as int % 14 + 1,
    );
    assert(world_key(q) == world_key(p));
    assert(world_cell(q).2 == world_cell(p).2 + 1);
    lemma_remove_then_get(
        old.chunks()[world_key(p)],
        new.chunks()[world_key(p)],
        world_cell(p).0 as int,
        world_cell(p).1 as int,
        world_cell(p).2 as int,
    );
}

/// Law: the positions visited around a chunk are all distinct, and the chunk
/// itself is among them.
pub proof fn lemma_nearby_positions_distinct(center: (i32, i32), i: int, j: int)
    requires
        0 <= i < 33 * 33,
        0 <= j < 33 * 33,
        i != j,
    ensures
        nearby_position(center, i) != nearby_position(center, j),
        nearby_position(center, 544int) == (ChunkPosition { x: center.0 as i64, y: center.1 as i64 }),
{
    vstd::arithmetic::div_mod::lemma_fundamental_div_mod(i, 33);
    vstd::arithmetic::div_mod::lemma_fundamental_div_mod(j, 33);
    vstd::arithmetic::div_mod::lemma_mod_bound(i, 33);
    vstd::arithmetic::div_mod::lemma_mod_bound(j, 33);
    vstd::arithmetic::div_mod::lemma_fundamental_div_mod_converse(544int, 33int, 16int, 16int);
}

} // verus!
