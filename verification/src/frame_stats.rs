use vstd::prelude::*;

verus! {

/// Per-frame counters filled while the scene is drawn (one entry per issued draw call).
#[derive(Clone, Copy, Debug)]
pub struct SceneRenderStats {
    /// Total draw calls issued for scene meshes (lines + opaque triangles + transparent triangles).
    pub draw_calls: u32,
    pub lines_drawn: u32,
    pub opaque_triangles_drawn: u32,
    pub transparent_triangles_drawn: u32,
}

impl SceneRenderStats {
    /// The total equals the sum of the three kinds of draws.
    pub open spec fn wf(&self) -> bool {
        self.draw_calls == self.lines_drawn + self.opaque_triangles_drawn
            + self.transparent_triangles_drawn
    }

    /// All counters at zero.
    pub fn new() -> (s: Self)
        ensures
            s.draw_calls == 0,
            s.lines_drawn == 0,
            s.opaque_triangles_drawn == 0,
            s.transparent_triangles_drawn == 0,
            s.wf(),
    {
        SceneRenderStats {
            draw_calls: 0,
            lines_drawn: 0,
            opaque_triangles_drawn: 0,
            transparent_triangles_drawn: 0,
        }
    }

    /// Counts one line draw.
    pub fn record_line_draw(&mut self)
        requires
            old(self).draw_calls < u32::MAX,
            old(self).lines_drawn < u32::MAX,
        ensures
            final(self).lines_drawn == old(self).lines_drawn + 1,
            final(self).draw_calls == old(self).draw_calls + 1,
            final(self).opaque_triangles_drawn == old(self).opaque_triangles_drawn,
            final(self).transparent_triangles_drawn == old(self).transparent_triangles_drawn,
            old(self).wf() ==> final(self).wf(),
    {
        self.lines_drawn += 1;
        self.draw_calls += 1;
    }

    /// Counts one triangle draw, in the transparent or the opaque pass.
    pub fn record_triangle_draw(&mut self, transparent: bool)
        requires
            old(self).draw_calls < u32::MAX,
            transparent ==> old(self).transparent_triangles_drawn < u32::MAX,
            !transparent ==> old(self).opaque_triangles_drawn < u32::MAX,
        ensures
            final(self).lines_drawn == old(self).lines_drawn,
            final(self).draw_calls == old(self).draw_calls + 1,
            final(self).transparent_triangles_drawn == old(self).transparent_triangles_drawn + (
            if transparent {
                1int
            } else {
                0int
            }),
            final(self).opaque_triangles_drawn == old(self).opaque_triangles_drawn + (
            if transparent {
                0int
            } else {
                1int
            }),
            old(self).wf() ==> final(self).wf(),
    {
        if transparent {
            self.transparent_triangles_drawn += 1;
        } else {
            self.opaque_triangles_drawn += 1;
        }
        self.draw_calls += 1;
    }
}

impl Default for SceneRenderStats {
    fn default() -> (s: Self)
        ensures
            s.draw_calls == 0,
            s.lines_drawn == 0,
            s.opaque_triangles_drawn == 0,
            s.transparent_triangles_drawn == 0,
    {
        SceneRenderStats::new()
    }
}

} // verus!
