use vstd::prelude::*;

verus! {

/// The state shared with the game loop: how many frames have run.
pub struct GameState {
    pub frame_count: u32,
}

/// Counts one more frame, wrapping around at `u32::MAX`.
pub fn game_update(state: &mut GameState)
    ensures
        final(state).frame_count == old(state).frame_count.wrapping_add(1),
{
    state.frame_count = state.frame_count.wrapping_add(1);
}

/// The integer hash of lattice point (i, j) behind the value noise: two
/// multiplications mixed by xor, an xor-shift and a third multiplication,
/// all wrapping, then the sign bit cleared.
pub open spec fn spec_hash_bits(i: i32, j: i32) -> i32 {
    let n = i.wrapping_mul(374761393) ^ j.wrapping_mul(668265263);
    let n = (n ^ (n >> 13i32)).wrapping_mul(1274126177);
    n & 0x7fffffff
}

/// The hash of lattice point (i, j), in 0 ..= 0x7fffffff.
pub fn hash_bits(i: i32, j: i32) -> (r: i32)
    ensures
        r == spec_hash_bits(i, j),
        0 <= r,
{
    let mut n = i.wrapping_mul(374761393) ^ j.wrapping_mul(668265263);
    n = (n ^ (n >> 13i32)).wrapping_mul(1274126177);
    let r = n & 0x7fffffff;
    assert(n & 0x7fffffffi32 >= 0) by (bit_vector);
    r
}

} // verus!
