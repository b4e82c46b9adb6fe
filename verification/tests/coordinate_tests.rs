use voxel_world::coordinate::{ChunkPosition, ChunkRelativePosition, Formable3D, Hashable, WorldPosition};

#[test]
fn chunk_pos_floors_both_axes() {
    let p = WorldPosition::new(15, 3, -1);
    assert_eq!(p.chunk_pos(), ChunkPosition::new(1, -1));
    let q = WorldPosition::new(-14, 0, 13);
    assert_eq!(q.chunk_pos(), ChunkPosition::new(-1, 0));
    let r = WorldPosition::new(-15, 0, 14);
    assert_eq!(r.chunk_pos(), ChunkPosition::new(-2, 1));
}

#[test]
fn chunk_rel_pos_skips_padding() {
    let p = WorldPosition::new(15, 3, -1);
    assert_eq!(p.chunk_rel_pos(), ChunkRelativePosition::new(2, 3, 14));
    let q = WorldPosition::new(-14, -7, 13);
    assert_eq!(q.chunk_rel_pos(), ChunkRelativePosition::new(1, -7, 14));
}

#[test]
fn world_position_decomposes() {
    for x in -60i64..60 {
        let p = WorldPosition::new(x, 0, -x);
        let c = p.chunk_pos();
        let r = p.chunk_rel_pos();
        assert!(1 <= r.x && r.x <= 14);
        assert!(1 <= r.z && r.z <= 14);
        assert_eq!(p.x, 14 * c.x + r.x - 1);
        assert_eq!(p.z, 14 * c.y + r.z - 1);
    }
}

#[test]
fn iterform_clamps_negative_values() {
    assert_eq!(ChunkRelativePosition::new(2, -5, 3).iterform(), (2, 0, 3));
    assert_eq!(ChunkRelativePosition::new(14, 255, 1).iterform(), (14, 255, 1));
}

#[test]
fn chunk_key_saturates() {
    assert_eq!(ChunkPosition::new(3, -4).to_chunk_key(), (3, -4));
    assert_eq!(ChunkPosition::new(i64::MAX, -5_000_000_000).to_chunk_key(), (i32::MAX, i32::MIN));
}
