//! Verified core of a small OpenGL engine: draw statistics, mesh draw calls,
//! render batching, light selection, input state and HUD glyph layout.

pub mod frame_stats;
pub mod game;
pub mod geometry;
pub mod hud;
pub mod input;
pub mod lights;
pub mod mesh;
pub mod render_plan;
pub mod shader;
