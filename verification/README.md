# storm

The data structures and decision logic of a small glTF rendering engine, verified
with Verus.

- `src/` is the verified library:
  - `storage` — generational sparse storage (`SparseMap`, `SparseSet`) with
    handles (`Id`) that stop finding an entry once its slot is reused;
  - `gltf` — binary glTF containers (`glb`), buffers and buffer views, accessor
    data (dense, sparse over dense defaults, sparse over a constant), image
    sources (`data:` URLs, files, buffer views), sampler settings, joint
    resolution;
  - `geometry`, `sphere`, `cylinder` — the decisions of a geometry build
    (whether normals and tangents are generated, unwelding of indexed
    vertices), and the triangle indices of boxes, spheres, cylinders; the
    normal and tangent values themselves are computed outside it;
  - `material`, `vertex`, `layout` — pipeline choices, vertex and index formats,
    buffer sizes and the packing of instances and skin joints;
  - `scene_graph` — the node hierarchy; `resource` — shared resources and assets.
- `app/` is plain Rust around it: reading files, parsing the glTF JSON with
  serde, decoding element bytes with bytemuck, and the floating-point
  transformation arithmetic with glam.
- `tests/` runs the library on concrete values.
