use voxel_world::coordinate::{ChunkPosition, WorldPosition};
use voxel_world::world::{nearby_chunk_positions, NearbyChunk, VoxelWorld, WorldError};

fn world_with_chunk(cx: i64, cz: i64, h: i32) -> VoxelWorld {
    let mut w = VoxelWorld::new();
    w.build_chunk(&ChunkPosition::new(cx, cz), &vec![h; 256]);
    w
}

#[test]
fn set_block_without_chunk_is_an_error() {
    let mut w = VoxelWorld::new();
    assert_eq!(w.set_block(&WorldPosition::new(5, 5, 5), Some(1)), Err(WorldError::MissingChunk));
    assert_eq!(WorldError::MissingChunk.message(), "Chunk entry does not exist ({}, {}).");
}

#[test]
fn set_block_outside_layers_does_nothing() {
    let mut w = world_with_chunk(0, 0, 3);
    assert_eq!(w.set_block(&WorldPosition::new(5, -1, 5), Some(0)), Ok(()));
    assert_eq!(w.set_block(&WorldPosition::new(5, 256, 5), Some(0)), Ok(()));
    let mut empty = VoxelWorld::default();
    assert_eq!(empty.set_block(&WorldPosition::new(5, 300, 5), None), Ok(()));
}

#[test]
fn world_place_then_get() {
    let mut w = world_with_chunk(0, 0, 3);
    let p = WorldPosition::new(5, 20, 5);
    assert_eq!(w.get_block(&p), None);
    assert_eq!(w.set_block(&p, Some(2)), Ok(()));
    assert_eq!(w.get_block(&p), Some(2));
    let below = WorldPosition::new(5, 2, 5);
    assert_eq!(w.set_block(&below, Some(2)), Ok(()));
    assert_eq!(w.get_block(&below), Some(1));
}

#[test]
fn world_positions_in_negative_chunks() {
    let mut w = world_with_chunk(-1, -1, -1);
    let p = WorldPosition::new(-1, 7, -14);
    assert_eq!(w.set_block(&p, Some(0)), Ok(()));
    assert_eq!(w.get_block(&p), Some(0));
    assert_eq!(w.get_block(&WorldPosition::new(0, 7, -14)), None);
}

#[test]
fn world_remove_clears_next_position_along_z() {
    let mut w = world_with_chunk(0, 0, 3);
    let p = WorldPosition::new(5, 2, 5);
    assert_eq!(w.set_block(&p, None), Ok(()));
    assert_eq!(w.get_block(&p), Some(1));
    assert_eq!(w.get_block(&WorldPosition::new(5, 2, 6)), None);
}

#[test]
fn get_block_reads_negative_heights_as_bottom_layer() {
    let w = world_with_chunk(0, 0, 0);
    assert_eq!(w.get_block(&WorldPosition::new(3, -5, 3)), Some(1));
    assert_eq!(w.get_block(&WorldPosition::new(30, 0, 3)), None);
}

#[test]
fn visit_nearby_chunk_reports_and_remeshes() {
    let mut w = VoxelWorld::new();
    let cp = ChunkPosition::new(2, 3);
    assert_eq!(w.visit_nearby_chunk(&cp), NearbyChunk::Missing);
    w.build_chunk(&cp, &vec![1; 256]);
    assert_eq!(w.visit_nearby_chunk(&cp), NearbyChunk::Remeshed);
    assert!(!w.chunk(&cp).unwrap().mesh().is_empty());
    assert_eq!(w.visit_nearby_chunk(&cp), NearbyChunk::Current);
    assert_eq!(w.set_block(&WorldPosition::new(30, 10, 44), Some(0)), Ok(()));
    assert_eq!(w.visit_nearby_chunk(&cp), NearbyChunk::Remeshed);
    assert!(w.chunk(&ChunkPosition::new(0, 0)).is_none());
}

#[test]
fn nearby_positions_cover_the_square() {
    let ps = nearby_chunk_positions(&WorldPosition::new(30, 0, -1));
    assert_eq!(ps.len(), 33 * 33);
    assert_eq!(ps[0], ChunkPosition::new(2 - 16, -1 - 16));
    assert_eq!(ps[1], ChunkPosition::new(2 - 16, -1 - 15));
    assert_eq!(ps[33], ChunkPosition::new(2 - 15, -1 - 16));
    assert_eq!(ps[544], ChunkPosition::new(2, -1));
    assert_eq!(ps[33 * 33 - 1], ChunkPosition::new(2 + 16, -1 + 16));
    let mut keys: Vec<(i64, i64)> = ps.iter().map(|p| (p.x, p.y)).collect();
    keys.sort();
    keys.dedup();
    assert_eq!(keys.len(), 33 * 33);
}

#[test]
fn set_block_ignores_kind_where_no_cell_is_written() {
    let mut w = VoxelWorld::new();
    assert_eq!(w.set_block(&WorldPosition::new(5, 5, 5), Some(7)), Err(WorldError::MissingChunk));
    let mut loaded = world_with_chunk(0, 0, 3);
    assert_eq!(loaded.set_block(&WorldPosition::new(5, 400, 5), Some(7)), Ok(()));
    assert_eq!(loaded.get_block(&WorldPosition::new(5, 2, 5)), Some(1));
}
