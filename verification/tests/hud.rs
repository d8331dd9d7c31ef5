use opengl_guap::frame_stats::SceneRenderStats;
use opengl_guap::hud::{draw_stats_line, glyph_cells, glyph_cells_of, glyphs_for, GlyphCell};

fn cell(column: usize, row: usize, bit: u32) -> GlyphCell {
    GlyphCell { column, row, bit }
}

#[test]
fn period_lights_four_pixels() {
    let cells = glyph_cells(".");
    assert_eq!(cells, vec![cell(0, 5, 2), cell(0, 5, 3), cell(0, 6, 2), cell(0, 6, 3)]);
}

#[test]
fn glyphs_come_from_the_font() {
    let g = glyphs_for("A ");
    assert_eq!(g, vec![[0x0C, 0x1E, 0x33, 0x33, 0x3F, 0x33, 0x33, 0x00], [0u8; 8]]);
}

#[test]
fn unknown_characters_render_as_space() {
    assert_eq!(glyphs_for("é"), vec![[0u8; 8]]);
    assert!(glyph_cells("é ").is_empty());
}

#[test]
fn cells_follow_columns() {
    let cells = glyph_cells(" .");
    assert_eq!(cells[0], cell(1, 5, 2));
    assert_eq!(cells.len(), 4);
    let a = glyph_cells_of(&vec![[0x0C, 0x1E, 0x33, 0x33, 0x3F, 0x33, 0x33, 0x00]]);
    assert_eq!(a.len(), 2 + 4 + 4 + 4 + 6 + 4 + 4);
    assert_eq!(a[0], cell(0, 0, 2));
    assert_eq!(a[2], cell(0, 1, 1));
}

#[test]
fn stats_line_format() {
    let s = SceneRenderStats {
        draw_calls: 7,
        lines_drawn: 1,
        opaque_triangles_drawn: 4,
        transparent_triangles_drawn: 2,
    };
    assert_eq!(draw_stats_line(&s), format!("draws {:>4} (+1 HUD)  L:{} T:{} A:{}", 7, 1, 4, 2));
    assert_eq!(draw_stats_line(&s), "draws    7 (+1 HUD)  L:1 T:4 A:2");
    let big = SceneRenderStats {
        draw_calls: 123456,
        lines_drawn: 0,
        opaque_triangles_drawn: 123456,
        transparent_triangles_drawn: 0,
    };
    assert_eq!(draw_stats_line(&big), "draws 123456 (+1 HUD)  L:0 T:123456 A:0");
}
