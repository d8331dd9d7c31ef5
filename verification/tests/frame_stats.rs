use opengl_guap::frame_stats::SceneRenderStats;

#[test]
fn stats_start_at_zero() {
    let s = SceneRenderStats::default();
    assert_eq!(s.draw_calls, 0);
    assert_eq!(s.lines_drawn, 0);
    assert_eq!(s.opaque_triangles_drawn, 0);
    assert_eq!(s.transparent_triangles_drawn, 0);
}

#[test]
fn line_draw_counts_once() {
    let mut s = SceneRenderStats::new();
    s.record_line_draw();
    s.record_line_draw();
    assert_eq!(s.lines_drawn, 2);
    assert_eq!(s.draw_calls, 2);
    assert_eq!(s.opaque_triangles_drawn, 0);
}

#[test]
fn triangle_draws_go_to_their_pass() {
    let mut s = SceneRenderStats::new();
    s.record_triangle_draw(false);
    s.record_triangle_draw(true);
    s.record_triangle_draw(true);
    s.record_line_draw();
    assert_eq!(s.opaque_triangles_drawn, 1);
    assert_eq!(s.transparent_triangles_drawn, 2);
    assert_eq!(s.lines_drawn, 1);
    assert_eq!(s.draw_calls, 4);
    assert_eq!(
        s.draw_calls,
        s.lines_drawn + s.opaque_triangles_drawn + s.transparent_triangles_drawn
    );
}
