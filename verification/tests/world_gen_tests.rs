use voxel_world::world_gen::{game_update, hash_bits, GameState};

#[test]
fn game_update_counts_frames() {
    let mut s = GameState { frame_count: 5 };
    game_update(&mut s);
    assert_eq!(s.frame_count, 6);
    let mut t = GameState { frame_count: u32::MAX };
    game_update(&mut t);
    assert_eq!(t.frame_count, 0);
}

#[test]
fn hash_bits_values() {
    assert_eq!(hash_bits(0, 0), 0);
    assert_eq!(hash_bits(1, 0), 34927554);
    assert_eq!(hash_bits(0, 1), 1152213128);
    assert_eq!(hash_bits(-3, 7), 855422257);
    assert_eq!(hash_bits(123456, -98765), 1026943483);
}

