# autogib

The integer core of a plane-cut mesh fracture pipeline, verified with Verus, and the
floating-point Bevy/`isomesh` layer around it.

- `src/hashing.rs` — the pinned 32-bit hash behind every cut-plane direction, and the seed of
  each cut.
- `src/soup.rs` — triangle-soup topology over any vertex payload: fresh-vertex triangles, fans,
  appended mesh blocks, with every index kept in range.
- `src/clip.rs` — which points a triangle keeps when clipped to a half-space, and the laws of
  the two halves (shared seam, at most four points).
- `src/index_buffer.rs` — decoding index buffers, expanding and compacting triangle subsets,
  offsetting appended index blocks.
- `src/schedule.rs` — the fracture's cut loop as a state machine: largest volume first under
  IEEE total order, bounded attempts, never past the target.
- `src/audit.rs` — the per-fragment audit record and `isomesh`'s collider policy applied to it.
- `app/` — vertex geometry in `f32`, the `bevy::mesh::Mesh` adapters, the fracture driver and the
  `isomesh` weld-and-validate audit, all calling the library above.
