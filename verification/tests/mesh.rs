use opengl_guap::mesh::{
    instance_layout, pos3_color3_layout, pos3_color3_normal3_layout, DrawArrays,
    DrawArraysInstanced, Mesh, MeshTopology, VertexAttrib,
};

fn a(location: u32, components: i32, offset_bytes: usize, divisor: u32) -> VertexAttrib {
    VertexAttrib { location, components, offset_bytes, divisor }
}

#[test]
fn vertex_layouts() {
    let l = pos3_color3_layout();
    assert_eq!(l.stride_bytes, 24);
    assert_eq!(l.attribs, vec![a(0, 3, 0, 0), a(1, 3, 12, 0)]);
    let l = pos3_color3_normal3_layout();
    assert_eq!(l.stride_bytes, 36);
    assert_eq!(l.attribs, vec![a(0, 3, 0, 0), a(1, 3, 12, 0), a(2, 3, 24, 0)]);
}

#[test]
fn instance_layout_matches_two_matrices() {
    let l = instance_layout();
    assert_eq!(l.stride_bytes, 100);
    assert_eq!(
        l.attribs,
        vec![
            a(3, 4, 0, 1),
            a(4, 4, 16, 1),
            a(5, 4, 32, 1),
            a(6, 4, 48, 1),
            a(7, 3, 64, 1),
            a(8, 3, 76, 1),
            a(9, 3, 88, 1),
        ]
    );
}

#[test]
fn draw_uses_all_vertices() {
    let m = Mesh::new_interleaved_pos3_color3_normal3(5, 6, 7, 36 * 9, 36);
    assert_eq!(m.vertex_count, 36);
    assert_eq!(
        m.draw(MeshTopology::Triangles),
        DrawArrays { vao: 5, topology: MeshTopology::Triangles, first: 0, count: 36 }
    );
    let g = Mesh::new_interleaved_pos3_color3(1, 2, 3, 12, 2);
    assert_eq!(
        g.draw(MeshTopology::Lines),
        DrawArrays { vao: 1, topology: MeshTopology::Lines, first: 0, count: 2 }
    );
    assert_eq!(g.draw_lines(), g.draw(MeshTopology::Lines));
    assert_eq!(m.draw_triangles(), m.draw(MeshTopology::Triangles));
}

#[test]
fn instanced_draw() {
    let m = Mesh::from_buffers(5, 6, 7, 36, pos3_color3_normal3_layout());
    assert_eq!(m.draw_instanced(MeshTopology::Triangles, 0), None);
    assert_eq!(
        m.draw_instanced(MeshTopology::Triangles, 3),
        Some(DrawArraysInstanced {
            vao: 5,
            instance_vbo: 7,
            topology: MeshTopology::Triangles,
            first: 0,
            count: 36,
            instance_count: 3
        })
    );
}

#[test]
fn meshes_carry_their_layouts() {
    let m = Mesh::new_interleaved_pos3_color3_normal3(5, 6, 7, 36 * 9, 36);
    assert_eq!(m.vertex_layout.stride_bytes, 36);
    assert_eq!(m.vertex_layout.attribs, vec![a(0, 3, 0, 0), a(1, 3, 12, 0), a(2, 3, 24, 0)]);
    assert_eq!(m.instance_layout.stride_bytes, 100);
    assert_eq!(m.instance_layout.attribs, instance_layout().attribs);
    let g = Mesh::new_interleaved_pos3_color3(1, 2, 3, 12, 2);
    assert_eq!(g.vertex_count, 2);
    assert_eq!(g.vertex_layout.stride_bytes, 24);
    assert_eq!(g.vertex_layout.attribs, vec![a(0, 3, 0, 0), a(1, 3, 12, 0)]);
    assert_eq!(g.instance_layout.attribs, instance_layout().attribs);
}
