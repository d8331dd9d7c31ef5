//! GPU meshes as the engine sees them: buffer names, vertex layouts and the draw calls
//! they turn into.
use vstd::prelude::*;

verus! {

/// How the vertices of a mesh are interpreted when it is drawn.
#[derive(Clone, Copy, Debug, PartialEq, Eq, Structural)]
pub enum MeshTopology {
    Triangles,
    Lines,
}

/// One vertex attribute pointer: `components` floats at `offset_bytes` into each record
/// of `stride_bytes`, advancing per vertex (`divisor` 0) or per instance (`divisor` 1).
#[derive(Clone, Copy, Debug, PartialEq, Eq, Structural)]
pub struct VertexAttrib {
    pub location: u32,
    pub components: i32,
    pub offset_bytes: usize,
    pub divisor: u32,
}

/// The attribute pointer with the given fields.
pub open spec fn attrib(location: int, components: int, offset_bytes: int, divisor: int) -> VertexAttrib {
    VertexAttrib {
        location: location as u32,
        components: components as i32,
        offset_bytes: offset_bytes as usize,
        divisor: divisor as u32,
    }
}

/// Record size and attributes of an interleaved buffer.
pub struct VertexLayout {
    pub stride_bytes: i32,
    pub attribs: Vec<VertexAttrib>,
}

/// Size in bytes of one `f32`.
pub const F32_BYTES: usize = 4;

/// Floats per vertex of a position + color mesh.
pub const POS3_COLOR3_FLOATS: usize = 6;

/// Floats per vertex of a position + color + normal mesh.
pub const POS3_COLOR3_NORMAL3_FLOATS: usize = 9;

/// Bytes of one instance record: a column-major 4×4 model matrix followed by a column-major
/// 3×3 normal matrix, all `f32`.
pub const INSTANCE_BYTES: usize = 100;

/// Position + color records: 24 bytes, `xyz` at location 0 (offset 0) and `rgb` at
/// location 1 (offset 12), per vertex.
pub open spec fn is_pos3_color3_layout(l: VertexLayout) -> bool {
    &&& l.stride_bytes == 24
    &&& l.attribs@ == seq![attrib(0, 3, 0, 0), attrib(1, 3, 12, 0)]
}

/// Position + color + normal records: 36 bytes, `xyz` at location 0 (offset 0), `rgb` at
/// location 1 (offset 12) and the normal at location 2 (offset 24), per vertex.
pub open spec fn is_pos3_color3_normal3_layout(l: VertexLayout) -> bool {
    &&& l.stride_bytes == 36
    &&& l.attribs@ == seq![attrib(0, 3, 0, 0), attrib(1, 3, 12, 0), attrib(2, 3, 24, 0)]
}

/// Instance records: 100 bytes, model matrix columns at locations 3–6 (offsets 0, 16,
/// 32, 48), normal matrix columns at 7–9 (offsets 64, 76, 88), per instance.
pub open spec fn is_instance_layout(l: VertexLayout) -> bool {
    &&& l.stride_bytes == INSTANCE_BYTES
    &&& l.attribs@.len() == 7
    &&& forall|c: int| 0 <= c < 4 ==> #[trigger] l.attribs@[c] == attrib(3 + c, 4, 16 * c, 1)
    &&& forall|c: int|
        0 <= c < 3 ==> #[trigger] l.attribs@[4 + c] == attrib(7 + c, 3, 64 + 12 * c, 1)
}

/// `xyz` at location 0 and `rgb` at location 1, six floats per vertex.
pub fn pos3_color3_layout() -> (l: VertexLayout)
    ensures
        is_pos3_color3_layout(l),
{
    let mut attribs: Vec<VertexAttrib> = Vec::new();
    attribs.push(VertexAttrib { location: 0, components: 3, offset_bytes: 0, divisor: 0 });
    attribs.push(
        VertexAttrib { location: 1, components: 3, offset_bytes: 3 * F32_BYTES, divisor: 0 },
    );
    assert(attribs@ =~= seq![attrib(0, 3, 0, 0), attrib(1, 3, 12, 0)]);
    VertexLayout { stride_bytes: (POS3_COLOR3_FLOATS * F32_BYTES) as i32, attribs }
}

/// `xyz` at location 0, `rgb` at 1 and the normal at 2, nine floats per vertex.
pub fn pos3_color3_normal3_layout() -> (l: VertexLayout)
    ensures
        is_pos3_color3_normal3_layout(l),
{
    let mut attribs: Vec<VertexAttrib> = Vec::new();
    attribs.push(VertexAttrib { location: 0, components: 3, offset_bytes: 0, divisor: 0 });
    attribs.push(
        VertexAttrib { location: 1, components: 3, offset_bytes: 3 * F32_BYTES, divisor: 0 },
    );
    attribs.push(
        VertexAttrib { location: 2, components: 3, offset_bytes: 6 * F32_BYTES, divisor: 0 },
    );
    assert(attribs@ =~= seq![attrib(0, 3, 0, 0), attrib(1, 3, 12, 0), attrib(2, 3, 24, 0)]);
    VertexLayout { stride_bytes: (POS3_COLOR3_NORMAL3_FLOATS * F32_BYTES) as i32, attribs }
}

/// Per-instance attributes: the four model matrix columns at locations 3–6 (four floats
/// each) and the three normal matrix columns at 7–9 (three floats each), advancing once
/// per instance.
pub fn instance_layout() -> (l: VertexLayout)
    ensures
        is_instance_layout(l),
{
    // a matrix column is four (model) or three (normal) floats: 16 or 12 bytes
    let model_offset: usize = 0;
    let normal_offset: usize = 16 * F32_BYTES;
    let mut attribs: Vec<VertexAttrib> = Vec::new();
    let mut col: u32 = 0;
    while col < 4
        invariant
            col <= 4,
            model_offset == 0,
            attribs@.len() == col,
            forall|c: int|
                0 <= c < col ==> #[trigger] attribs@[c] == attrib(3 + c, 4, 16 * c, 1),
        decreases 4 - col,
    {
        attribs.push(
            VertexAttrib {
                location: 3 + col,
                components: 4,
                offset_bytes: model_offset + (col as usize) * 16,
                divisor: 1,
            },
        );
        col = col + 1;
    }
    let mut col: u32 = 0;
    while col < 3
        invariant
            col <= 3,
            normal_offset == 64,
            attribs@.len() == 4 + col,
            forall|c: int|
                0 <= c < 4 ==> #[trigger] attribs@[c] == attrib(3 + c, 4, 16 * c, 1),
            forall|c: int|
                0 <= c < col ==> #[trigger] attribs@[4 + c] == attrib(7 + c, 3, 64 + 12 * c, 1),
        decreases 3 - col,
    {
        attribs.push(
            VertexAttrib {
                location: 7 + col,
                components: 3,
                offset_bytes: normal_offset + (col as usize) * 12,
                divisor: 1,
            },
        );
        col = col + 1;
    }
    VertexLayout { stride_bytes: INSTANCE_BYTES as i32, attribs }
}

/// A mesh uploaded to the GPU: vertex array, vertex buffer, instance buffer, vertex count,
/// and how the vertex array reads its two buffers.
pub struct Mesh {
    pub vao: u32,
    pub vbo: u32,
    pub instance_vbo: u32,
    pub vertex_count: i32,
    /// Attribute pointers into the vertex buffer.
    pub vertex_layout: VertexLayout,
    /// Attribute pointers into the instance buffer.
    pub instance_layout: VertexLayout,
}

/// A non-instanced draw: `count` vertices from `first` of `vao`.
#[derive(Clone, Copy, Debug, PartialEq, Eq, Structural)]
pub struct DrawArrays {
    pub vao: u32,
    pub topology: MeshTopology,
    pub first: i32,
    pub count: i32,
}

/// An instanced draw: the instance buffer is filled with `instance_count` records, then
/// `count` vertices are drawn that many times.
#[derive(Clone, Copy, Debug, PartialEq, Eq, Structural)]
pub struct DrawArraysInstanced {
    pub vao: u32,
    pub instance_vbo: u32,
    pub topology: MeshTopology,
    pub first: i32,
    pub count: i32,
    pub instance_count: i32,
}

impl Mesh {
    /// Records the buffers of a freshly uploaded mesh whose vertex buffer is read with
    /// `vertex_layout`; the instance buffer holds instance records. The vertex count is
    /// stored as the GPU's signed count (`vertex_count as i32`).
    pub fn from_buffers(
        vao: u32,
        vbo: u32,
        instance_vbo: u32,
        vertex_count: usize,
        vertex_layout: VertexLayout,
    ) -> (m: Mesh)
        ensures
            m.vao == vao,
            m.vbo == vbo,
            m.instance_vbo == instance_vbo,
            m.vertex_count == vertex_count as i32,
            m.vertex_layout == vertex_layout,
            is_instance_layout(m.instance_layout),
    {
        Mesh {
            vao,
            vbo,
            instance_vbo,
            vertex_count: vertex_count as i32,
            vertex_layout,
            instance_layout: instance_layout(),
        }
    }

    /// A position + color mesh: `float_count` floats hold six per vertex, read as
    /// 24-byte records (`xyz` at offset 0, `rgb` at 12), plus per-instance records.
    pub fn new_interleaved_pos3_color3(
        vao: u32,
        vbo: u32,
        instance_vbo: u32,
        float_count: usize,
        vertex_count: usize,
    ) -> (m: Mesh)
        requires
            float_count == vertex_count * 6,
        ensures
            m.vao == vao,
            m.vbo == vbo,
            m.instance_vbo == instance_vbo,
            m.vertex_count == vertex_count as i32,
            is_pos3_color3_layout(m.vertex_layout),
            is_instance_layout(m.instance_layout),
    {
        Mesh::from_buffers(vao, vbo, instance_vbo, vertex_count, pos3_color3_layout())
    }

    /// A position + color + normal mesh: `float_count` floats hold nine per vertex, read
    /// as 36-byte records (`xyz` at 0, `rgb` at 12, normal at 24), plus per-instance records.
    pub fn new_interleaved_pos3_color3_normal3(
        vao: u32,
        vbo: u32,
        instance_vbo: u32,
        float_count: usize,
        vertex_count: usize,
    ) -> (m: Mesh)
        requires
            float_count == vertex_count * 9,
        ensures
            m.vao == vao,
            m.vbo == vbo,
            m.instance_vbo == instance_vbo,
            m.vertex_count == vertex_count as i32,
            is_pos3_color3_normal3_layout(m.vertex_layout),
            is_instance_layout(m.instance_layout),
    {
        Mesh::from_buffers(vao, vbo, instance_vbo, vertex_count, pos3_color3_normal3_layout())
    }

    /// Draws the mesh as triangles or lines (lines need an even vertex count).
    pub fn draw(&self, topology: MeshTopology) -> (d: DrawArrays)
        requires
            topology == MeshTopology::Lines ==> self.vertex_count % 2 == 0,
        ensures
            d == (DrawArrays { vao: self.vao, topology, first: 0, count: self.vertex_count }),
    {
        match topology {
            MeshTopology::Triangles => self.draw_triangles(),
            MeshTopology::Lines => self.draw_lines(),
        }
    }

    /// Draws all vertices as triangles.
    pub fn draw_triangles(&self) -> (d: DrawArrays)
        ensures
            d == (DrawArrays {
                vao: self.vao,
                topology: MeshTopology::Triangles,
                first: 0,
                count: self.vertex_count,
            }),
    {
        DrawArrays {
            vao: self.vao,
            topology: MeshTopology::Triangles,
            first: 0,
            count: self.vertex_count,
        }
    }

    /// Draws all vertices as lines, each pair one line.
    pub fn draw_lines(&self) -> (d: DrawArrays)
        requires
            self.vertex_count % 2 == 0,
        ensures
            d == (DrawArrays {
                vao: self.vao,
                topology: MeshTopology::Lines,
                first: 0,
                count: self.vertex_count,
            }),
    {
        DrawArrays { vao: self.vao, topology: MeshTopology::Lines, first: 0, count: self.vertex_count }
    }

    /// Draws `instance_count` instances in one call; nothing is drawn for zero instances.
    pub fn draw_instanced(&self, topology: MeshTopology, instance_count: usize) -> (d: Option<
        DrawArraysInstanced,
    >)
        requires
            instance_count > 0 && topology == MeshTopology::Lines ==> self.vertex_count % 2 == 0,
        ensures
            instance_count == 0 ==> d is None,
            instance_count > 0 ==> d == Some(
                DrawArraysInstanced {
                    vao: self.vao,
                    instance_vbo: self.instance_vbo,
                    topology,
                    first: 0,
                    count: self.vertex_count,
                    instance_count: instance_count as i32,
                },
            ),
    {
        if instance_count == 0 {
            return None;
        }
        Some(
            DrawArraysInstanced {
                vao: self.vao,
                instance_vbo: self.instance_vbo,
                topology,
                first: 0,
                count: self.vertex_count,
                instance_count: instance_count as i32,
            },
        )
    }
}

} // verus!
