use opengl_guap::mesh::MeshTopology;
use opengl_guap::render_plan::{
    f32_bits_equal, materials_equal, plan_mesh_draws, DrawItem, MaterialKey,
};

fn mat(value: f32, visible: bool, transparent: bool) -> MaterialKey {
    MaterialKey { words: [value.to_bits(); 10], visible, transparent }
}

fn tri(mesh: u64, m: Option<MaterialKey>, depth: f32) -> DrawItem {
    DrawItem { topology: MeshTopology::Triangles, mesh, material: m, depth: depth.to_bits() }
}

fn line(mesh: u64) -> DrawItem {
    DrawItem { topology: MeshTopology::Lines, mesh, material: None, depth: 0 }
}

#[test]
fn float_equality_on_bits() {
    assert!(f32_bits_equal(1.5f32.to_bits(), 1.5f32.to_bits()));
    assert!(!f32_bits_equal(1.5f32.to_bits(), 2.5f32.to_bits()));
    assert!(f32_bits_equal(0.0f32.to_bits(), (-0.0f32).to_bits()));
    assert!(!f32_bits_equal(f32::NAN.to_bits(), f32::NAN.to_bits()));
    assert!(f32_bits_equal(f32::INFINITY.to_bits(), f32::INFINITY.to_bits()));
}

#[test]
fn material_equality_is_fieldwise() {
    let a = mat(0.5, true, false);
    let mut b = mat(0.5, true, false);
    assert!(materials_equal(&a, &b));
    b.words[9] = 48.0f32.to_bits();
    assert!(!materials_equal(&a, &b));
    let n = mat(f32::NAN, true, false);
    assert!(!materials_equal(&n, &n));
}

#[test]
fn lines_batch_by_mesh() {
    let items = vec![line(1), tri(1, Some(mat(1.0, true, false)), 0.0), line(2), line(1)];
    let plan = plan_mesh_draws(&items);
    assert_eq!(plan.lines, vec![vec![0, 3], vec![2]]);
    assert_eq!(plan.opaque, vec![vec![1]]);
    assert!(plan.transparent.is_empty());
    assert_eq!(plan.stats.lines_drawn, 2);
    assert_eq!(plan.stats.opaque_triangles_drawn, 1);
    assert_eq!(plan.stats.draw_calls, 3);
}

#[test]
fn opaque_batch_by_mesh_and_material() {
    let red = mat(1.0, true, false);
    let blue = mat(0.25, true, false);
    let items = vec![
        tri(7, Some(red), 0.0),
        tri(7, Some(blue), 0.0),
        tri(8, Some(red), 0.0),
        tri(7, Some(red), 0.0),
        tri(7, Some(blue), 0.0),
    ];
    let plan = plan_mesh_draws(&items);
    assert_eq!(plan.opaque, vec![vec![0, 3], vec![1, 4], vec![2]]);
    assert_eq!(plan.stats.opaque_triangles_drawn, 3);
    assert_eq!(plan.stats.draw_calls, 3);
}

#[test]
fn meshes_without_visible_material_are_not_drawn() {
    let items = vec![
        tri(1, None, 0.0),
        tri(1, Some(mat(0.0, false, true)), 0.0),
        tri(1, Some(mat(1.0, true, false)), 0.0),
    ];
    let plan = plan_mesh_draws(&items);
    assert_eq!(plan.opaque, vec![vec![2]]);
    assert!(plan.transparent_order.is_empty());
    assert_eq!(plan.stats.draw_calls, 1);
}

#[test]
fn nan_materials_never_share_a_call() {
    let n = mat(f32::NAN, true, false);
    let items = vec![tri(1, Some(n), 0.0), tri(1, Some(n), 0.0)];
    let plan = plan_mesh_draws(&items);
    assert_eq!(plan.opaque, vec![vec![0], vec![1]]);
}

#[test]
fn transparent_drawn_back_to_front_in_runs() {
    let glass = mat(0.5, true, true);
    let smoke = mat(0.3, true, true);
    let items = vec![
        tri(1, Some(glass), 4.0),  // 0
        tri(1, Some(glass), 9.0),  // 1
        tri(2, Some(smoke), 16.0), // 2
        tri(1, Some(glass), 4.0),  // 3: same distance as 0, keeps world order
        tri(1, Some(glass), 1.0),  // 4
        tri(1, Some(mat(1.0, true, false)), 100.0), // 5: opaque
    ];
    let plan = plan_mesh_draws(&items);
    assert_eq!(plan.transparent_order, vec![2, 1, 0, 3, 4]);
    assert_eq!(plan.transparent, vec![vec![2], vec![1, 0, 3, 4]]);
    assert_eq!(plan.opaque, vec![vec![5]]);
    assert_eq!(plan.stats.transparent_triangles_drawn, 2);
    assert_eq!(plan.stats.draw_calls, 3);
}

#[test]
fn transparent_runs_break_on_change() {
    let glass = mat(0.5, true, true);
    let smoke = mat(0.3, true, true);
    let items = vec![
        tri(1, Some(glass), 3.0),
        tri(1, Some(smoke), 2.0),
        tri(1, Some(glass), 1.0),
    ];
    let plan = plan_mesh_draws(&items);
    assert_eq!(plan.transparent, vec![vec![0], vec![1], vec![2]]);
}

#[test]
fn empty_scene_draws_nothing() {
    let plan = plan_mesh_draws(&Vec::new());
    assert!(plan.lines.is_empty() && plan.opaque.is_empty() && plan.transparent.is_empty());
    assert_eq!(plan.stats.draw_calls, 0);
}
