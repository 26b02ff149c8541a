//! Integer core of a square shallow-water ocean grid: the row-major layout of the
//! grid's cells and the triangle index buffer that renders the grid as a mesh.

pub mod layout;
pub mod mesh;
