use vstd::prelude::*;

use crate::layout::{GRID, lemma_cell_index_bijective, spec_cell_index};

verus! {

/// Entry `k` (0 to 5) of the two triangles that cover the quad whose first corner is
/// vertex `(x, z)`: with `i` that vertex and `g` the grid side, the triangles
/// `(i, i + g, i + 1)` and `(i + 1, i + g, i + g + 1)`.
pub open spec fn quad_corner(x: int, z: int, k: int) -> int {
    let i = spec_cell_index(x, z);
    let g = GRID as int;
    if k == 0 {
        i
    } else if k == 1 {
        i + g
    } else if k == 2 {
        i + 1
    } else if k == 3 {
        i + 1
    } else if k == 4 {
        i + g
    } else {
        i + g + 1
    }
}

/// Position in the index buffer of entry `k` of quad `(x, z)`: quads come row by row,
/// six entries each.
pub open spec fn quad_slot(x: int, z: int, k: int) -> int {
    6 * ((GRID as int - 1) * z + x) + k
}

/// Column of the grid vertex at position `n` of the vertex array.
pub open spec fn col(n: int) -> int {
    n % (GRID as int)
}

/// Row of the grid vertex at position `n` of the vertex array.
pub open spec fn row(n: int) -> int {
    n / (GRID as int)
}

/// Twice the signed area of the triangle `(a, b, c)` of grid vertices, measured in
/// grid cells: `-1` for a unit right triangle wound like the mesh's triangles.
pub open spec fn turn(a: int, b: int, c: int) -> int {
    (col(b) - col(a)) * (row(c) - row(a)) - (row(b) - row(a)) * (col(c) - col(a))
}

/// The four corners of the quad whose first corner is vertex `(x, z)`.
pub open spec fn quad_corners(x: int, z: int) -> Set<int> {
    set![
        spec_cell_index(x, z),
        spec_cell_index(x + 1, z),
        spec_cell_index(x, z + 1),
        spec_cell_index(x + 1, z + 1),
    ]
}

/// The six entries `e0..e5` tile the quad whose first corner is vertex `(x, z)`: the
/// triangles `(e0, e1, e2)` and `(e3, e4, e5)` together use exactly the quad's four
/// corners and share only its diagonal from `(x + 1, z)` to `(x, z + 1)`, so they cover
/// it with no overlap and no gap; the first entry is the quad's first corner and the
/// last its far corner; and both are unit triangles wound the same way.
pub open spec fn quad_tiled(
    e0: int,
    e1: int,
    e2: int,
    e3: int,
    e4: int,
    e5: int,
    x: int,
    z: int,
) -> bool {
    &&& set![e0, e1, e2].union(set![e3, e4, e5]) == quad_corners(x, z)
    &&& set![e0, e1, e2].intersect(set![e3, e4, e5]) == set![
        spec_cell_index(x + 1, z),
        spec_cell_index(x, z + 1),
    ]
    &&& e0 == spec_cell_index(x, z)
    &&& e5 == spec_cell_index(x + 1, z + 1)
    &&& turn(e0, e1, e2) == -1
    &&& turn(e3, e4, e5) == -1
}

/// The triangle index buffer of the grid mesh: two triangles per quad, quads row by row.
/// Every quad is tiled by its two triangles (`quad_tiled`), and the quad at buffer
/// position `6 * q` is the `q`-th quad in row-major order.
pub fn get_indices() -> (indices: Vec<u32>)
    ensures
        indices@.len() == 6 * (GRID - 1) * (GRID - 1),
        forall|x: int, z: int, k: int|
            0 <= x < GRID - 1 && 0 <= z < GRID - 1 && 0 <= k < 6 ==> #[trigger] indices@[quad_slot(
                x,
                z,
                k,
            )] == quad_corner(x, z, k),
        forall|j: int| 0 <= j < indices@.len() ==> #[trigger] indices@[j] < GRID * GRID,
        forall|x: int, z: int|
            0 <= x < GRID - 1 && 0 <= z < GRID - 1 ==> #[trigger] quad_tiled(
                indices@[quad_slot(x, z, 0)] as int,
                indices@[quad_slot(x, z, 1)] as int,
                indices@[quad_slot(x, z, 2)] as int,
                indices@[quad_slot(x, z, 3)] as int,
                indices@[quad_slot(x, z, 4)] as int,
                indices@[quad_slot(x, z, 5)] as int,
                x,
                z,
            ),
        forall|q: int|
            0 <= q < (GRID - 1) * (GRID - 1) ==> #[trigger] indices@[6 * q] == spec_cell_index(
                q % (GRID as int - 1),
                q / (GRID as int - 1),
            ),
{
    let g: u32 = 128;
    let mut indices: Vec<u32> = Vec::new();
    let mut z: u32 = 0;
    while z < g - 1
        invariant
            g == GRID,
            z <= g - 1,
            indices@.len() == 6 * (127 * z),
            forall|xx: int, zz: int, k: int|
                0 <= xx < 127 && 0 <= zz < z && 0 <= k < 6 ==> #[trigger] indices@[quad_slot(
                    xx,
                    zz,
                    k,
                )] == quad_corner(xx, zz, k),
            forall|j: int| 0 <= j < indices@.len() ==> #[trigger] indices@[j] < GRID * GRID,
        decreases g - 1 - z,
    {
        let mut x: u32 = 0;
        while x < g - 1
            invariant
                g == GRID,
                z < g - 1,
                x <= g - 1,
                indices@.len() == 6 * (127 * z + x),
                forall|xx: int, zz: int, k: int|
                    0 <= xx < 127 && 0 <= zz < z && 0 <= k < 6 ==> #[trigger] indices@[quad_slot(
                        xx,
                        zz,
                        k,
                    )] == quad_corner(xx, zz, k),
                forall|xx: int, k: int|
                    0 <= xx < x && 0 <= k < 6 ==> #[trigger] indices@[quad_slot(xx, z as int, k)]
                        == quad_corner(xx, z as int, k),
                forall|j: int| 0 <= j < indices@.len() ==> #[trigger] indices@[j] < GRID * GRID,
            decreases g - 1 - x,
        {
            let ghost before = indices@;
            let i = z * g + x;
            indices.push(i);
            indices.push(i + g);
            indices.push(i + 1);
            indices.push(i + 1);
            indices.push(i + g);
            indices.push(i + g + 1);
            assert forall|k: int| 0 <= k < 6 implies #[trigger] indices@[quad_slot(x as int, z as int, k)]
                == quad_corner(x as int, z as int, k) by {
                assert(quad_slot(x as int, z as int, k) == before.len() + k);
            }
            assert forall|xx: int, zz: int, k: int|
                0 <= xx < 127 && 0 <= zz < z && 0 <= k < 6 implies #[trigger] indices@[quad_slot(
                    xx,
                    zz,
                    k,
                )] == quad_corner(xx, zz, k) by {
                assert(indices@[quad_slot(xx, zz, k)] == before[quad_slot(xx, zz, k)]);
            }
            assert forall|xx: int, k: int|
                0 <= xx < x + 1 && 0 <= k < 6 implies #[trigger] indices@[quad_slot(
                    xx,
                    z as int,
                    k,
                )] == quad_corner(xx, z as int, k) by {
                if xx < x {
                    assert(indices@[quad_slot(xx, z as int, k)] == before[quad_slot(xx, z as int, k)]);
                }
            }
            x = x + 1;
        }
        z = z + 1;
    }
    assert forall|x: int, z: int| 0 <= x < GRID - 1 && 0 <= z < GRID - 1 implies #[trigger] quad_tiled(
        indices@[quad_slot(x, z, 0)] as int,
        indices@[quad_slot(x, z, 1)] as int,
        indices@[quad_slot(x, z, 2)] as int,
        indices@[quad_slot(x, z, 3)] as int,
        indices@[quad_slot(x, z, 4)] as int,
        indices@[quad_slot(x, z, 5)] as int,
        x,
        z,
    ) by {
        lemma_quad_tiled(x, z);
        assert(indices@[quad_slot(x, z, 0)] == quad_corner(x, z, 0));
        assert(indices@[quad_slot(x, z, 1)] == quad_corner(x, z, 1));
        assert(indices@[quad_slot(x, z, 2)] == quad_corner(x, z, 2));
        assert(indices@[quad_slot(x, z, 3)] == quad_corner(x, z, 3));
        assert(indices@[quad_slot(x, z, 4)] == quad_corner(x, z, 4));
        assert(indices@[quad_slot(x, z, 5)] == quad_corner(x, z, 5));
    }
    assert forall|q: int| 0 <= q < (GRID - 1) * (GRID - 1) implies #[trigger] indices@[6 * q]
        == spec_cell_index(q % (GRID as int - 1), q / (GRID as int - 1)) by {
        let x = q % 127;
        let z = q / 127;
        assert(quad_slot(x, z, 0) == 6 * q);
        assert(indices@[quad_slot(x, z, 0)] == quad_corner(x, z, 0));
    }
    indices
}

/// The two triangles of every quad tile it: they use exactly its four corners, share
/// only its diagonal, start at its first corner and end at its far corner, and are unit
/// triangles wound the same way.
pub proof fn lemma_quad_tiled(x: int, z: int)
    requires
        0 <= x < GRID - 1,
        0 <= z < GRID - 1,
    ensures
        quad_tiled(
            quad_corner(x, z, 0),
            quad_corner(x, z, 1),
            quad_corner(x, z, 2),
            quad_corner(x, z, 3),
            quad_corner(x, z, 4),
            quad_corner(x, z, 5),
            x,
            z,
        ),
{
    let a = spec_cell_index(x, z);
    let b = spec_cell_index(x + 1, z);
    let c = spec_cell_index(x, z + 1);
    let d = spec_cell_index(x + 1, z + 1);
    lemma_cell_index_bijective(x, z);
    lemma_cell_index_bijective(x + 1, z);
    lemma_cell_index_bijective(x, z + 1);
    lemma_cell_index_bijective(x + 1, z + 1);
    assert(set![a, c, b].union(set![b, c, d]) =~= quad_corners(x, z));
    assert(set![a, c, b].intersect(set![b, c, d]) =~= set![b, c]);
    assert(turn(a, c, b) == -1) by (nonlinear_arith)
        requires
            col(a) == x,
            row(a) == z,
            col(b) == x + 1,
            row(b) == z,
            col(c) == x,
            row(c) == z + 1,
            turn(a, c, b) == (col(c) - col(a)) * (row(b) - row(a)) - (row(c) - row(a)) * (col(b)
                - col(a)),
    ;
    assert(turn(b, c, d) == -1) by (nonlinear_arith)
        requires
            col(b) == x + 1,
            row(b) == z,
            col(c) == x,
            row(c) == z + 1,
            col(d) == x + 1,
            row(d) == z + 1,
            turn(b, c, d) == (col(c) - col(b)) * (row(d) - row(b)) - (row(c) - row(b)) * (col(d)
                - col(b)),
    ;
}

/// The mesh covers the whole grid: every vertex `(x, z)` of the grid is an entry of
/// some quad's triangles.
pub proof fn lemma_every_vertex_covered(x: int, z: int)
    requires
        0 <= x < GRID,
        0 <= z < GRID,
    ensures
        exists|qx: int, qz: int, k: int|
            0 <= qx < GRID - 1 && 0 <= qz < GRID - 1 && 0 <= k < 6 && #[trigger] quad_corner(qx, qz, k)
                == spec_cell_index(x, z),
{
    let qx = if x < GRID - 1 { x } else { x - 1 };
    let qz = if z < GRID - 1 { z } else { z - 1 };
    let k: int = if x == qx && z == qz {
        0
    } else if z == qz {
        2
    } else if x == qx {
        1
    } else {
        5
    };
    assert(quad_corner(qx, qz, k) == spec_cell_index(x, z));
}

/// No triangle of the mesh is degenerate: the three entries of each triangle of a quad
/// are three different vertices, all of them vertices of the grid.
pub proof fn lemma_triangles_nondegenerate(x: int, z: int)
    requires
        0 <= x < GRID - 1,
        0 <= z < GRID - 1,
    ensures
        forall|t: int, a: int, b: int|
            0 <= t < 2 && 0 <= a < b < 3 ==> #[trigger] quad_corner(x, z, 3 * t + a) != #[trigger] quad_corner(
                x,
                z,
                3 * t + b,
            ),
        forall|k: int| 0 <= k < 6 ==> 0 <= #[trigger] quad_corner(x, z, k) < GRID * GRID,
{
}

} // verus!
