use voxel_world::flat_chunk::Chunk;

#[test]
fn default_fills_five_layers() {
    let c = Chunk::default();
    assert!(c.get(0, 0, 0));
    assert!(c.get(15, 4, 15));
    assert!(!c.get(0, 5, 0));
    assert!(c.is_dirty());
}

#[test]
fn set_keeps_only_the_addressed_bit() {
    let mut c = Chunk::default();
    c.set(3, 0, 7, false);
    assert!(c.get(3, 0, 7));
    assert!(!c.get(3, 0, 6));
    assert!(!c.get(3, 0, 8));
    assert!(c.get(4, 0, 6));
    c.set(3, 6, 2, true);
    assert!(!c.get(3, 6, 2));
}

#[test]
fn build_mesh_draws_where_bits_change() {
    let mut c = Chunk::default();
    c.build_mesh();
    assert!(!c.is_dirty());
    // each full row changes only after bit 15
    assert_eq!(c.mesh().len(), 16 * 5 * 18);
    assert_eq!(
        c.mesh()[0..18].to_vec(),
        vec![1, 0, 15, 1, 1, 15, 1, 1, 16, 1, 1, 16, 1, 0, 16, 1, 0, 15]
    );
}

#[test]
fn build_mesh_after_set() {
    let mut c = Chunk::default();
    c.set(0, 0, 7, true);
    c.build_mesh();
    // row (0, 0) now holds only bit 7: faces at z = 6 and z = 7
    assert_eq!(c.mesh().len(), (16 * 5 - 1 + 2) * 18);
    assert_eq!(c.mesh()[0..3].to_vec(), vec![1, 0, 6]);
    assert_eq!(c.mesh()[18..21].to_vec(), vec![1, 0, 7]);
}
