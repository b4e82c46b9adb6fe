use voxel_world::chunk::{Chunk, Vertex};
use voxel_world::coordinate::{ChunkPosition, ChunkRelativePosition, WorldPosition};

fn flat_heights(h: i32) -> Vec<i32> {
    vec![h; 256]
}

fn rel(x: i64, y: i64, z: i64) -> ChunkRelativePosition {
    ChunkRelativePosition::new(x, y, z)
}

#[test]
fn new_chunk_fills_terrain_columns() {
    let c = Chunk::new(ChunkPosition::new(0, 0), &flat_heights(3));
    assert_eq!(c.get_block(&rel(1, 3, 1)), Some(1));
    assert_eq!(c.get_block(&rel(1, 0, 15)), Some(1));
    assert_eq!(c.get_block(&rel(1, 4, 1)), None);
    assert!(c.is_dirty());
    assert!(c.mesh().is_empty());
}

#[test]
fn new_chunk_uses_each_column_height() {
    let mut heights = flat_heights(-1);
    heights[2 * 16 + 5] = 7;
    let c = Chunk::new(ChunkPosition::new(0, 0), &heights);
    assert_eq!(c.get_block(&rel(2, 7, 5)), Some(1));
    assert_eq!(c.get_block(&rel(2, 8, 5)), None);
    assert_eq!(c.get_block(&rel(5, 0, 2)), None);
    assert_eq!(c.get_block(&rel(2, 0, 6)), None);
}

#[test]
fn terrain_has_no_overhangs() {
    let mut heights = flat_heights(2);
    heights[3 * 16 + 3] = 40;
    let c = Chunk::new(ChunkPosition::new(0, 0), &heights);
    for y in 0..=40 {
        assert_eq!(c.get_block(&rel(3, y, 3)), Some(1));
    }
    assert_eq!(c.get_block(&rel(3, 41, 3)), None);
}

#[test]
fn place_then_get_gives_lowest_kind() {
    let mut c = Chunk::new(ChunkPosition::new(0, 0), &flat_heights(3));
    c.set_block(rel(2, 10, 2), Some(2));
    assert_eq!(c.get_block(&rel(2, 10, 2)), Some(2));
    // kind 1 is already at (2, 2, 2): placing kind 2 there still reads kind 1
    c.set_block(rel(2, 2, 2), Some(2));
    assert_eq!(c.get_block(&rel(2, 2, 2)), Some(1));
    c.set_block(rel(2, 2, 2), Some(0));
    assert_eq!(c.get_block(&rel(2, 2, 2)), Some(0));
}

#[test]
fn place_keeps_other_cells() {
    let mut c = Chunk::new(ChunkPosition::new(0, 0), &flat_heights(3));
    c.set_block(rel(4, 20, 4), Some(0));
    assert_eq!(c.get_block(&rel(4, 20, 5)), None);
    assert_eq!(c.get_block(&rel(4, 21, 4)), None);
    assert_eq!(c.get_block(&rel(5, 20, 4)), None);
    assert_eq!(c.get_block(&rel(4, 3, 4)), Some(1));
}

#[test]
fn remove_clears_next_cell_along_z() {
    let mut c = Chunk::new(ChunkPosition::new(0, 0), &flat_heights(3));
    c.set_block(rel(2, 3, 2), None);
    assert_eq!(c.get_block(&rel(2, 3, 2)), Some(1));
    assert_eq!(c.get_block(&rel(2, 3, 3)), None);
    assert_eq!(c.get_block(&rel(2, 3, 4)), Some(1));
    assert!(c.is_dirty());
}

#[test]
fn place_twice_is_place_once() {
    let mut a = Chunk::new(ChunkPosition::new(0, 0), &flat_heights(-1));
    let mut b = Chunk::new(ChunkPosition::new(0, 0), &flat_heights(-1));
    a.set_block(rel(6, 6, 6), Some(2));
    b.set_block(rel(6, 6, 6), Some(2));
    b.set_block(rel(6, 6, 6), Some(2));
    a.gen_mesh();
    b.gen_mesh();
    assert_eq!(a.mesh(), b.mesh());
    assert_eq!(b.get_block(&rel(6, 6, 6)), Some(2));
}

fn lone_block_mesh(pos: ChunkPosition, x: i64, y: i64, z: i64) -> Vec<i64> {
    let mut c = Chunk::new(pos, &flat_heights(-1));
    c.set_block(rel(x, y, z), Some(0));
    c.gen_mesh();
    assert!(!c.is_dirty());
    c.mesh().clone()
}

#[test]
fn lone_block_gets_six_faces() {
    let mesh = lone_block_mesh(ChunkPosition::new(0, 0), 5, 10, 5);
    assert_eq!(mesh.len(), 6 * 30);
    // the face towards -z, drawn from the corner (4, 10, 4)
    assert_eq!(
        mesh[0..30].to_vec(),
        vec![
            4, 10, 4, 0, 0, 4, 11, 4, 0, 1, 5, 11, 4, 1, 1, 5, 11, 4, 1, 1, 5, 10, 4, 1, 0, 4, 10, 4, 0, 0
        ]
    );
    // the face towards +y
    assert_eq!(
        mesh[120..150].to_vec(),
        vec![
            4, 11, 4, 0, 0, 4, 11, 5, 0, 1, 5, 11, 5, 1, 1, 5, 11, 5, 1, 1, 5, 11, 4, 1, 0, 4, 11, 4, 0, 0
        ]
    );
}

#[test]
fn mesh_faces_towards_minus_x_use_previous_cell() {
    let mesh = lone_block_mesh(ChunkPosition::new(0, 0), 5, 10, 5);
    // faces: -z, +z, +x, -x, ...; the -x face is drawn from the corner of x - 1
    assert_eq!(mesh[90..95].to_vec(), vec![4, 10, 4, 0, 0]);
    assert_eq!(mesh[60..65].to_vec(), vec![5, 10, 4, 0, 0]);
}

#[test]
fn mesh_is_offset_by_chunk_position() {
    let mesh = lone_block_mesh(ChunkPosition::new(2, -1), 1, 0, 1);
    // corner (1 - 1 + 28, 0, 1 - 1 - 14); no face below the bottom layer
    assert_eq!(mesh[0..5].to_vec(), vec![28, 0, -14, 0, 0]);
    assert_eq!(mesh.len(), 5 * 30);
}

#[test]
fn top_layer_hides_top_face_only_at_z_four() {
    let covered = lone_block_mesh(ChunkPosition::new(0, 0), 3, 255, 4);
    assert_eq!(covered.len(), 5 * 30);
    let open = lone_block_mesh(ChunkPosition::new(0, 0), 3, 255, 5);
    assert_eq!(open.len(), 6 * 30);
}

#[test]
fn adjacent_blocks_hide_shared_faces() {
    let mut c = Chunk::new(ChunkPosition::new(0, 0), &flat_heights(-1));
    c.set_block(rel(5, 10, 5), Some(0));
    c.set_block(rel(5, 10, 6), Some(0));
    c.gen_mesh();
    assert_eq!(c.mesh().len(), 10 * 30);
    assert_eq!(c.vertex_count(), 10 * 30 / 3);
}

#[test]
fn different_kinds_do_not_hide_each_other() {
    let mut c = Chunk::new(ChunkPosition::new(0, 0), &flat_heights(-1));
    c.set_block(rel(5, 10, 5), Some(0));
    c.set_block(rel(5, 10, 6), Some(2));
    c.gen_mesh();
    assert_eq!(c.mesh().len(), 12 * 30);
}

#[test]
fn remeshing_unchanged_blocks_gives_same_mesh() {
    let mut c = Chunk::new(ChunkPosition::new(1, 1), &flat_heights(4));
    c.gen_mesh();
    let first = c.mesh().clone();
    c.mark_dirty();
    c.gen_mesh();
    assert_eq!(&first, c.mesh());
    assert!(!first.is_empty());
}

#[test]
fn vertex_values() {
    let base = WorldPosition::new(10, -3, 7);
    let v = Vertex::relative(&base, (1, 0, 1), (0, 1));
    assert_eq!(v.pos, [11, -3, 8]);
    assert_eq!(v.uv, [0, 1]);
    assert_eq!(v.to_slice(), [11, -3, 8, 0, 1]);
    assert_eq!(Vertex::new((1, 2, 3), (4, 5)).to_slice(), [1, 2, 3, 4, 5]);
}

#[test]
fn world_block_is_drawn_at_its_world_position() {
    let p = WorldPosition::new(-20, 7, 33);
    let cp = p.chunk_pos();
    assert_eq!(cp, ChunkPosition::new(-2, 2));
    let r = p.chunk_rel_pos();
    let mut c = Chunk::new(cp, &flat_heights(-1));
    c.set_block(r, Some(0));
    c.gen_mesh();
    assert_eq!(c.mesh()[0..3].to_vec(), vec![p.x, p.y, p.z]);
}

#[test]
fn mesh_corner_reads_back_as_its_cell() {
    let pos = ChunkPosition::new(-3, 5);
    let mut c = Chunk::new(pos, &flat_heights(-1));
    c.set_block(rel(14, 9, 1), Some(0));
    c.gen_mesh();
    let m = c.mesh();
    let w = WorldPosition::new(m[0], m[1], m[2]);
    assert_eq!(w.chunk_pos(), pos);
    assert_eq!(w.chunk_rel_pos(), rel(14, 9, 1));
}
