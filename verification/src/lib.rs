//! Block storage, meshing and chunk bookkeeping of a voxel world.
pub mod chunk;
pub mod coordinate;
pub mod flat_chunk;
pub mod mesh;
pub mod world;
pub mod world_gen;
