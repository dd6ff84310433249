//! Per-frame compositing: concatenation, draw ranges, selection, change
//! detection and draw-call derivation, on concrete meshes.

use render_lyon::pass::{DrawCall, DrawCmdOps, DrawCustom, MeshEntry};
use render_lyon::utils::{ActiveMesh, IndexType, Mesh, VertexType};

fn vert(tag: u32) -> VertexType {
    VertexType { position: [tag, tag + 1], colour: [tag + 2, tag + 3, tag + 4, tag + 5] }
}

fn mesh(n_vertices: u32, indices: &[IndexType]) -> Mesh {
    let mut vertices = Vec::new();
    for i in 0..n_vertices {
        vertices.push(vert(10 * i));
    }
    Mesh { vertices, indices: indices.to_vec() }
}

fn entry(entity: u64, m: Mesh) -> MeshEntry {
    MeshEntry { entity, mesh: m }
}

#[test]
fn two_records_no_selector() {
    let meshes = vec![
        entry(1, mesh(3, &[0, 1, 2])),
        entry(2, mesh(4, &[0, 1, 2, 0, 2, 3])),
    ];
    let active = ActiveMesh { entity: None };
    let mut pass = DrawCustom::new();
    let (vertices, indices, ranges, changed) = pass.prepare(&meshes, &active);

    assert_eq!(vertices.len(), 7);
    assert_eq!(indices.len(), 9);
    // index values are mesh-local and stay untouched
    assert_eq!(indices, vec![0, 1, 2, 0, 1, 2, 0, 2, 3]);
    assert_eq!(
        ranges,
        vec![
            DrawCmdOps { vertex_start: 0, vertex_end: 3, index_start: 0, index_end: 3 },
            DrawCmdOps { vertex_start: 3, vertex_end: 7, index_start: 3, index_end: 9 },
        ]
    );
    assert!(changed);
    assert_eq!(pass.vertex_count, 7);
    assert_eq!(pass.index_count, 9);

    // one indexed draw call per mesh; global addressing purely by base vertex
    let calls = pass.draw_calls(&ranges);
    assert_eq!(
        calls,
        vec![
            DrawCall { index_start: 0, index_end: 3, base_vertex: 0 },
            DrawCall { index_start: 3, index_end: 9, base_vertex: 3 },
        ]
    );
}

#[test]
fn vertex_data_concatenated_in_order() {
    let meshes = vec![
        entry(1, mesh(2, &[0, 1])),
        entry(2, mesh(1, &[0])),
    ];
    let active = ActiveMesh { entity: None };
    let mut pass = DrawCustom::new();
    let (vertices, _, _, _) = pass.prepare(&meshes, &active);

    assert_eq!(vertices.len(), 3);
    assert_eq!(vertices[0].pos, meshes[0].mesh.vertices[0].position);
    assert_eq!(vertices[0].color, meshes[0].mesh.vertices[0].colour);
    assert_eq!(vertices[1].pos, meshes[0].mesh.vertices[1].position);
    assert_eq!(vertices[2].pos, meshes[1].mesh.vertices[0].position);
    assert_eq!(vertices[2].color, meshes[1].mesh.vertices[0].colour);
}

#[test]
fn empty_input_yields_empty_outputs() {
    let meshes: Vec<MeshEntry> = Vec::new();
    let active = ActiveMesh { entity: None };
    let mut pass = DrawCustom::new();
    let (vertices, indices, ranges, changed) = pass.prepare(&meshes, &active);

    assert!(vertices.is_empty());
    assert!(indices.is_empty());
    assert!(ranges.is_empty());
    assert!(!changed);

    // and no draw call is issued at all
    let calls = pass.draw_calls(&ranges);
    assert!(calls.is_empty());
}

#[test]
fn selector_keeps_single_record_starting_at_zero() {
    let meshes = vec![
        entry(1, mesh(3, &[0, 1, 2])),
        entry(2, mesh(4, &[0, 1, 2, 0, 2, 3])),
        entry(3, mesh(5, &[0, 1, 2])),
    ];
    let active = ActiveMesh { entity: Some(2) };
    let mut pass = DrawCustom::new();
    let (vertices, indices, ranges, _) = pass.prepare(&meshes, &active);

    assert_eq!(vertices.len(), 4);
    assert_eq!(indices, vec![0, 1, 2, 0, 2, 3]);
    assert_eq!(
        ranges,
        vec![DrawCmdOps { vertex_start: 0, vertex_end: 4, index_start: 0, index_end: 6 }]
    );
    assert_eq!(pass.vertex_count, 4);
    assert_eq!(pass.index_count, 6);

    let calls = pass.draw_calls(&ranges);
    assert_eq!(calls, vec![DrawCall { index_start: 0, index_end: 6, base_vertex: 0 }]);
}

#[test]
fn stale_selector_behaves_like_no_selector() {
    let meshes = vec![
        entry(1, mesh(3, &[0, 1, 2])),
        entry(2, mesh(4, &[0, 1, 2, 0, 2, 3])),
    ];
    let mut pass_all = DrawCustom::new();
    let (v_all, i_all, r_all, c_all) =
        pass_all.prepare(&meshes, &ActiveMesh { entity: None });

    // entity 999 owns no mesh: every record still takes part
    let mut pass_stale = DrawCustom::new();
    let (v_stale, i_stale, r_stale, c_stale) =
        pass_stale.prepare(&meshes, &ActiveMesh { entity: Some(999) });

    assert_eq!(v_all, v_stale);
    assert_eq!(i_all, i_stale);
    assert_eq!(r_all, r_stale);
    assert_eq!(c_all, c_stale);
}

#[test]
fn changed_tracks_total_counts_only() {
    let meshes = vec![
        entry(1, mesh(3, &[0, 1, 2])),
        entry(2, mesh(4, &[0, 1, 2, 0, 2, 3])),
    ];
    let active = ActiveMesh { entity: None };
    let mut pass = DrawCustom::new();

    let (_, _, _, changed_first) = pass.prepare(&meshes, &active);
    assert!(changed_first);

    // identical input again: same totals, no change reported
    let (_, _, _, changed_second) = pass.prepare(&meshes, &active);
    assert!(!changed_second);

    // same totals but different vertex values: still no change (a known,
    // deliberate limitation of the coarse count heuristic)
    let mut mutated = vec![
        entry(1, mesh(3, &[0, 1, 2])),
        entry(2, mesh(4, &[0, 1, 2, 0, 2, 3])),
    ];
    mutated[0].mesh.vertices[0].position = [77, 78];
    let (_, _, _, changed_mutated) = pass.prepare(&mutated, &active);
    assert!(!changed_mutated);

    // one more index: totals differ, change reported
    let grown = vec![
        entry(1, mesh(3, &[0, 1, 2, 2])),
        entry(2, mesh(4, &[0, 1, 2, 0, 2, 3])),
    ];
    let (_, _, _, changed_grown) = pass.prepare(&grown, &active);
    assert!(changed_grown);
}

#[test]
fn selection_change_reports_changed() {
    let meshes = vec![
        entry(1, mesh(3, &[0, 1, 2])),
        entry(2, mesh(4, &[0, 1, 2, 0, 2, 3])),
    ];
    let mut pass = DrawCustom::new();
    let (_, _, _, _) = pass.prepare(&meshes, &ActiveMesh { entity: None });
    // narrowing to one mesh shrinks the totals
    let (_, _, _, changed) = pass.prepare(&meshes, &ActiveMesh { entity: Some(1) });
    assert!(changed);
}

#[test]
fn selector_keeps_every_record_of_its_entity() {
    // two records owned by the same entity: selecting it keeps both,
    // in input order, and drops only the stranger in between
    let meshes = vec![
        entry(5, mesh(2, &[0, 1])),
        entry(8, mesh(9, &[0])),
        entry(5, mesh(3, &[0, 1, 2])),
    ];
    let active = ActiveMesh { entity: Some(5) };
    let mut pass = DrawCustom::new();
    let (vertices, indices, ranges, _) = pass.prepare(&meshes, &active);

    assert_eq!(vertices.len(), 5);
    assert_eq!(indices, vec![0, 1, 0, 1, 2]);
    assert_eq!(
        ranges,
        vec![
            DrawCmdOps { vertex_start: 0, vertex_end: 2, index_start: 0, index_end: 2 },
            DrawCmdOps { vertex_start: 2, vertex_end: 5, index_start: 2, index_end: 5 },
        ]
    );
}

#[test]
fn zero_vertices_issue_no_draw_calls() {
    // a frame whose meshes hold no vertices must not issue any draw call,
    // whatever the recorded ranges say
    let meshes = vec![entry(1, mesh(0, &[0, 1, 2]))];
    let active = ActiveMesh { entity: None };
    let mut pass = DrawCustom::new();
    let (vertices, indices, ranges, _) = pass.prepare(&meshes, &active);

    assert!(vertices.is_empty());
    assert_eq!(indices.len(), 3);
    assert_eq!(ranges.len(), 1);
    assert_eq!(pass.vertex_count, 0);

    let calls = pass.draw_calls(&ranges);
    assert!(calls.is_empty());
}

#[test]
fn get_args_keeps_positions_and_colours() {
    let m = mesh(3, &[0, 1, 2]);
    let args = m.get_args();
    assert_eq!(args.len(), 3);
    for k in 0..3 {
        assert_eq!(args[k].pos, m.vertices[k].position);
        assert_eq!(args[k].color, m.vertices[k].colour);
    }
}

#[test]
fn float_lanes_travel_through_unchanged() {
    let v = VertexType {
        position: [2.5f32.to_bits(), (-400.25f32).to_bits()],
        colour: [1.0f32.to_bits(), 0.0f32.to_bits(), 0.5f32.to_bits(), 1.0f32.to_bits()],
    };
    let m = Mesh { vertices: vec![v], indices: vec![0] };
    let meshes = vec![entry(9, m)];
    let mut pass = DrawCustom::new();
    let (vertices, _, _, _) = pass.prepare(&meshes, &ActiveMesh { entity: None });

    assert_eq!(f32::from_bits(vertices[0].pos[0]), 2.5);
    assert_eq!(f32::from_bits(vertices[0].pos[1]), -400.25);
    assert_eq!(f32::from_bits(vertices[0].color[2]), 0.5);
}

#[test]
fn mesh_default_is_empty() {
    let m = Mesh::default();
    assert!(m.vertices.is_empty());
    assert!(m.indices.is_empty());
}

#[test]
fn active_mesh_default_selects_nothing() {
    let a = ActiveMesh::default();
    assert_eq!(a.entity, None);
}
