use vt_client::mesh::{ribbon_indices, uv_sphere_indices};

#[test]
fn a_ribbon_is_two_verts_per_crumb_and_two_triangles_per_gap() {
    // Four crumbs, a full step apart.
    let idx = ribbon_indices(4);
    assert_eq!(idx.len(), 3 * 6, "3 gaps => 6 indices each");
    assert_eq!(&idx[0..6], &[0, 2, 3, 0, 3, 1]);
    assert_eq!(&idx[12..18], &[4, 6, 7, 4, 7, 5]);
    assert!(idx.iter().all(|&i| i < 8), "4 points => 8 vertices");
}

#[test]
fn a_single_crumb_draws_a_collapsed_triangle_not_an_empty_mesh() {
    assert_eq!(ribbon_indices(1), vec![0, 1, 2]);
    assert_eq!(ribbon_indices(0), vec![0, 1, 2]);
}

#[test]
fn a_two_point_ribbon_is_one_quad() {
    assert_eq!(ribbon_indices(2), vec![0, 2, 3, 0, 3, 1]);
}

#[test]
fn a_sphere_is_never_coarser_than_eight_by_four() {
    let idx = uv_sphere_indices(3, 2);
    assert_eq!(idx.len(), 8 * 4 * 6);
    assert!(idx.iter().all(|&i| i < 9 * 5));
}

#[test]
fn a_sphere_quad_is_two_triangles_across_one_grid_cell() {
    let idx = uv_sphere_indices(16, 8);
    assert_eq!(idx.len(), 16 * 8 * 6);
    // The first quad: corners 0 and 1 on the top row, 17 and 18 below them.
    assert_eq!(&idx[0..6], &[0, 17, 1, 1, 17, 18]);
    // The quad at latitude 1, longitude 2.
    let q = (1 * 16 + 2) * 6;
    assert_eq!(&idx[q..q + 6], &[19, 36, 20, 20, 36, 37]);
    assert!(idx.iter().all(|&i| i < 17 * 9));
}
