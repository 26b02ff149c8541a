use ocean_sim::layout::{cell_count, cell_index, grid_size, GRID};
use ocean_sim::mesh::get_indices;

#[test]
fn grid_size_is_128() {
    assert_eq!(grid_size(), 128);
    assert_eq!(GRID, 128);
}

#[test]
fn cell_count_is_square_of_side() {
    assert_eq!(cell_count(), 16384);
}

#[test]
fn cell_index_is_row_major() {
    assert_eq!(cell_index(0, 0), 0);
    assert_eq!(cell_index(5, 0), 5);
    assert_eq!(cell_index(0, 1), 128);
    assert_eq!(cell_index(3, 2), 259);
    assert_eq!(cell_index(127, 127), 16383);
}

#[test]
fn cell_index_edges_used_by_boundary_drive() {
    // north row, south row, west column, east column
    assert_eq!(cell_index(7, 0), 7);
    assert_eq!(cell_index(7, GRID - 1), 127 * 128 + 7);
    assert_eq!(cell_index(0, 9), 9 * 128);
    assert_eq!(cell_index(GRID - 1, 9), 9 * 128 + 127);
}

#[test]
fn cell_index_round_trips() {
    for z in 0..GRID {
        for x in 0..GRID {
            let i = cell_index(x, z);
            assert_eq!(i % GRID, x);
            assert_eq!(i / GRID, z);
        }
    }
}

#[test]
fn indices_length() {
    assert_eq!(get_indices().len(), 6 * 127 * 127);
}

#[test]
fn indices_first_quad() {
    let idx = get_indices();
    assert_eq!(&idx[0..6], &[0, 128, 1, 1, 128, 129]);
}

#[test]
fn indices_second_quad_and_second_row() {
    let idx = get_indices();
    assert_eq!(&idx[6..12], &[1, 129, 2, 2, 129, 130]);
    let row1 = 6 * 127;
    assert_eq!(&idx[row1..row1 + 6], &[128, 256, 129, 129, 256, 257]);
}

#[test]
fn indices_last_quad() {
    let idx = get_indices();
    let n = idx.len();
    let i = 126 * 128 + 126;
    assert_eq!(&idx[n - 6..], &[i, i + 128, i + 1, i + 1, i + 128, i + 129]);
    assert_eq!(idx[n - 1], 16383);
}

#[test]
fn indices_all_in_range() {
    assert!(get_indices().iter().all(|&v| (v as usize) < GRID * GRID));
}

#[test]
fn indices_cover_every_vertex() {
    let mut seen = vec![false; GRID * GRID];
    for &v in get_indices().iter() {
        seen[v as usize] = true;
    }
    assert!(seen.iter().all(|&s| s));
}

#[test]
fn indices_triangles_nondegenerate() {
    let idx = get_indices();
    for t in idx.chunks(3) {
        assert!(t[0] != t[1] && t[1] != t[2] && t[0] != t[2]);
    }
}
