# ocean_sim

A square shallow-water ocean grid rendered as a WebAssembly mesh.

- `src/` is the verified library: the row-major layout of the grid's cells
  (`layout`) and the triangle index buffer of the grid mesh (`mesh`), with the
  laws that the layout is a bijection and that the mesh covers every vertex with
  non-degenerate triangles.
- `app/` holds the floating-point simulation (Gerstner waves, the edge drive, the
  leapfrog update, splashes, vertex extraction) and its JavaScript bindings; it
  indexes every per-cell array through the library's layout.
