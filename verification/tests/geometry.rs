use opengl_guap::geometry::{
    cylinder_cap_triangles, cylinder_side_triangles, grid_cell_triangles, hemisphere_triangles,
    sphere_triangles, GridCorner,
};

fn c(ring: u32, segment: u32) -> GridCorner {
    GridCorner { ring, segment }
}

#[test]
fn one_cell_two_triangles() {
    let t = grid_cell_triangles(1, 1, false);
    assert_eq!(t, vec![c(0, 0), c(0, 1), c(1, 1), c(0, 0), c(1, 1), c(1, 0)]);
    let f = grid_cell_triangles(1, 1, true);
    assert_eq!(f, vec![c(0, 0), c(1, 1), c(0, 1), c(0, 0), c(1, 0), c(1, 1)]);
}

#[test]
fn grid_cells_in_ring_order() {
    let t = grid_cell_triangles(2, 3, false);
    assert_eq!(t.len(), 36);
    // cell (1, 2) starts at (1 * 3 + 2) * 6
    assert_eq!(t[30], c(1, 2));
    assert_eq!(t[31], c(1, 3));
    assert_eq!(t[35], c(2, 2));
}

#[test]
fn sphere_vertex_counts() {
    assert_eq!(sphere_triangles(18, 36).len(), 18 * 36 * 6);
    // at least two rings and three segments
    assert_eq!(sphere_triangles(0, 0).len(), 2 * 3 * 6);
    assert_eq!(sphere_triangles(1, 4).len(), 2 * 4 * 6);
}

#[test]
fn capsule_hemispheres_face_outwards() {
    let bottom = hemisphere_triangles(8, 28, true);
    let top = hemisphere_triangles(8, 28, false);
    assert_eq!(bottom.len(), 8 * 28 * 6);
    assert_eq!(top.len(), bottom.len());
    assert_eq!(bottom[1], c(0, 1));
    assert_eq!(top[1], c(1, 1));
    assert_eq!(hemisphere_triangles(0, 1, true).len(), 1 * 3 * 6);
}

#[test]
fn cylinder_parts() {
    let side = cylinder_side_triangles(36);
    assert_eq!(side.len(), 36 * 6);
    assert_eq!(side[6 * 35 + 2], c(1, 36));
    let bottom = cylinder_cap_triangles(4, false);
    assert_eq!(bottom.len(), 12);
    assert_eq!(&bottom[0..3], &[None, Some(1), Some(0)]);
    let top = cylinder_cap_triangles(4, true);
    assert_eq!(&top[9..12], &[None, Some(3), Some(4)]);
    assert_eq!(cylinder_cap_triangles(1, true).len(), 9);
}

#[test]
fn sphere_below_minimum_is_the_minimum_sphere() {
    assert_eq!(sphere_triangles(0, 1), sphere_triangles(2, 3));
    assert_eq!(sphere_triangles(1, 36), sphere_triangles(2, 36));
    assert_eq!(sphere_triangles(18, 2), sphere_triangles(18, 3));
    assert_eq!(sphere_triangles(18, 36).len() * 9, 34992);
}
