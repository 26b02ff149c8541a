use vstd::prelude::*;

verus! {

/// Number of cells along each side of the square simulation grid.
pub const GRID: usize = 128;

/// Position of cell `(x, z)` in a row-major array of the grid: row `z`, column `x`.
pub open spec fn spec_cell_index(x: int, z: int) -> int {
    z * (GRID as int) + x
}

/// Number of cells along each side of the grid.
pub fn grid_size() -> (n: usize)
    ensures
        n == GRID,
{
    GRID
}

/// Number of cells of the whole grid, the length of each per-cell array.
pub fn cell_count() -> (n: usize)
    ensures
        n == GRID * GRID,
{
    GRID * GRID
}

/// Position of cell `(x, z)` in a row-major per-cell array.
pub fn cell_index(x: usize, z: usize) -> (i: usize)
    requires
        x < GRID,
        z < GRID,
    ensures
        i == spec_cell_index(x as int, z as int),
        i < GRID * GRID,
{
    z * GRID + x
}

/// Every cell has a position of its own: the position of `(x, z)` lies below
/// `GRID * GRID`, and gives back the column `x` as its remainder by `GRID` and the
/// row `z` as its quotient.
pub proof fn lemma_cell_index_bijective(x: int, z: int)
    requires
        0 <= x < GRID,
        0 <= z < GRID,
    ensures
        0 <= spec_cell_index(x, z) < GRID * GRID,
        spec_cell_index(x, z) % (GRID as int) == x,
        spec_cell_index(x, z) / (GRID as int) == z,
{
}

/// Every position below `GRID * GRID` belongs to a cell: the one whose column is the
/// position's remainder by `GRID` and whose row is its quotient.
pub proof fn lemma_position_has_cell(n: int)
    requires
        0 <= n < GRID * GRID,
    ensures
        0 <= n % (GRID as int) < GRID,
        0 <= n / (GRID as int) < GRID,
        spec_cell_index(n % (GRID as int), n / (GRID as int)) == n,
{
}

} // verus!
