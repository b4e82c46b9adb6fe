# voxel_world

The block logic of a small voxel renderer, verified with Verus.

- `src/coordinate.rs`: integer world, chunk and in-chunk positions and how
  one turns into the other.
- `src/chunk.rs`: a chunk's bit-packed block rows for three block kinds,
  reading and changing cells, terrain filling, and the mesher.
- `src/mesh.rs`: what the mesher draws (face visibility, vertex tables and
  their order), with the bit-level facts the mesher relies on.
- `src/world.rs`: the table of loaded chunks and the chunk bookkeeping
  around the viewer.
- `src/flat_chunk.rs`: a single-kind 16 x 64 x 16 chunk with its own mesher.
- `src/world_gen.rs`: the frame counter and the integer hash behind the
  value noise.
- `app/`: the window, OpenGL, camera and noise; it hands the library
  integer positions and terrain heights and uploads the integer meshes as floats.
