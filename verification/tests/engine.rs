use mdsim::color::Color;
use mdsim::engine::DrawPrimitive;
use mdsim::engine::K3dengine;
use mdsim::engine::Projection;
use mdsim::mesh::Geometry;
use mdsim::mesh::K3dMesh;
use mdsim::mesh::RenderMode;

const A: (i32, i32) = (10, 11);
const B: (i32, i32) = (20, 21);
const C: (i32, i32) = (30, 31);
const D: (i32, i32) = (40, 41);

fn blue() -> Color {
    Color::new(0, 0, 255)
}

fn square(normal_count: usize, mode: RenderMode) -> K3dMesh {
    let mut mesh = K3dMesh::new(Geometry {
        vertex_count: 4,
        faces: vec![[0, 1, 2], [0, 2, 3]],
        colors: Vec::new(),
        lines: Vec::new(),
        normal_count,
    });
    mesh.set_color(blue());
    mesh.set_render_mode(mode);
    mesh
}

fn seen(points: Vec<Option<(i32, i32)>>, facing: Vec<bool>, shades: Vec<Color>) -> Projection {
    Projection { points, facing, shades }
}

fn all_four() -> Vec<Option<(i32, i32)>> {
    vec![Some(A), Some(B), Some(C), Some(D)]
}

fn render_one(mesh: &K3dMesh, view: &Projection) -> Vec<DrawPrimitive> {
    assert!(view.check_fits(mesh));
    let mut out = Vec::new();
    K3dengine::new(800, 600).render_mesh(mesh, view, &mut out);
    out
}

#[test]
fn engine_keeps_its_size() {
    let engine = K3dengine::new(800, 600);
    assert_eq!((engine.width, engine.height), (800, 600));
}

#[test]
fn points_in_the_flat_color() {
    let mesh = square(0, RenderMode::Points);
    let out = render_one(&mesh, &seen(all_four(), vec![], vec![]));
    assert_eq!(
        out,
        vec![
            DrawPrimitive::ColoredPoint(A, blue()),
            DrawPrimitive::ColoredPoint(B, blue()),
            DrawPrimitive::ColoredPoint(C, blue()),
            DrawPrimitive::ColoredPoint(D, blue()),
        ]
    );
}

#[test]
fn points_skip_vertices_that_are_not_seen() {
    let mesh = square(0, RenderMode::Points);
    let out = render_one(&mesh, &seen(vec![None, Some(B), None, Some(D)], vec![], vec![]));
    assert_eq!(out, vec![DrawPrimitive::ColoredPoint(B, blue()), DrawPrimitive::ColoredPoint(D, blue())]);
    let out = render_one(&mesh, &seen(vec![None, None, None, None], vec![], vec![]));
    assert_eq!(out, vec![]);
}

#[test]
fn points_in_the_color_of_each_vertex() {
    let colors: Vec<Color> = (0..4).map(|i| Color::new(i, i, i)).collect();
    let mut mesh = K3dMesh::new(Geometry {
        vertex_count: 4,
        faces: Vec::new(),
        colors: colors.clone(),
        lines: Vec::new(),
        normal_count: 0,
    });
    mesh.set_color(blue());
    let out = render_one(&mesh, &seen(vec![Some(A), None, Some(C), Some(D)], vec![], vec![]));
    assert_eq!(
        out,
        vec![
            DrawPrimitive::ColoredPoint(A, colors[0]),
            DrawPrimitive::ColoredPoint(C, colors[2]),
            DrawPrimitive::ColoredPoint(D, colors[3]),
        ]
    );
}

#[test]
fn explicit_lines_come_before_face_edges() {
    let mut mesh = square(0, RenderMode::Lines);
    mesh.geometry.lines = vec![[0, 3], [1, 2], [2, 2]];
    let out = render_one(&mesh, &seen(all_four(), vec![], vec![]));
    assert_eq!(
        out,
        vec![
            DrawPrimitive::Line([A, D], blue()),
            DrawPrimitive::Line([B, C], blue()),
            DrawPrimitive::Line([C, C], blue()),
        ]
    );
}

#[test]
fn line_with_an_unseen_end_is_dropped_whole() {
    let mut mesh = square(0, RenderMode::Lines);
    mesh.geometry.lines = vec![[0, 3], [1, 2]];
    let out = render_one(&mesh, &seen(vec![Some(A), Some(B), Some(C), None], vec![], vec![]));
    assert_eq!(out, vec![DrawPrimitive::Line([B, C], blue())]);
}

#[test]
fn faces_give_their_three_edges_where_there_are_no_lines() {
    let mesh = square(0, RenderMode::Lines);
    let out = render_one(&mesh, &seen(all_four(), vec![], vec![]));
    assert_eq!(
        out,
        vec![
            DrawPrimitive::Line([A, B], blue()),
            DrawPrimitive::Line([B, C], blue()),
            DrawPrimitive::Line([C, A], blue()),
            DrawPrimitive::Line([A, C], blue()),
            DrawPrimitive::Line([C, D], blue()),
            DrawPrimitive::Line([D, A], blue()),
        ]
    );
}

#[test]
fn face_with_an_unseen_corner_gives_no_edges() {
    let mesh = square(0, RenderMode::Lines);
    let out = render_one(&mesh, &seen(vec![Some(A), None, Some(C), Some(D)], vec![], vec![]));
    assert_eq!(
        out,
        vec![
            DrawPrimitive::Line([A, C], blue()),
            DrawPrimitive::Line([C, D], blue()),
            DrawPrimitive::Line([D, A], blue()),
        ]
    );
}

#[test]
fn lines_of_a_mesh_without_lines_or_faces() {
    let mut mesh = square(0, RenderMode::Lines);
    mesh.geometry.faces = Vec::new();
    assert_eq!(render_one(&mesh, &seen(all_four(), vec![], vec![])), vec![]);
}

#[test]
fn solid_without_normals_draws_every_face() {
    let mesh = square(0, RenderMode::Solid);
    let out = render_one(&mesh, &seen(all_four(), vec![], vec![]));
    assert_eq!(
        out,
        vec![
            DrawPrimitive::ColoredTriangle([A, B, C], blue()),
            DrawPrimitive::ColoredTriangle([A, C, D], blue()),
        ]
    );
}

#[test]
fn solid_with_normals_culls_faces_turned_away() {
    let mesh = square(2, RenderMode::Solid);
    let out = render_one(&mesh, &seen(all_four(), vec![false, true], vec![]));
    assert_eq!(out, vec![DrawPrimitive::ColoredTriangle([A, C, D], blue())]);
    let out = render_one(&mesh, &seen(all_four(), vec![false, false], vec![]));
    assert_eq!(out, vec![]);
}

#[test]
fn solid_drops_a_face_with_an_unseen_corner() {
    let mesh = square(2, RenderMode::Solid);
    let out = render_one(&mesh, &seen(vec![Some(A), Some(B), Some(C), None], vec![true, true], vec![]));
    assert_eq!(out, vec![DrawPrimitive::ColoredTriangle([A, B, C], blue())]);
    let mesh = square(0, RenderMode::Solid);
    let out = render_one(&mesh, &seen(vec![Some(A), None, Some(C), Some(D)], vec![], vec![]));
    assert_eq!(out, vec![DrawPrimitive::ColoredTriangle([A, C, D], blue())]);
}

#[test]
fn solid_with_fewer_normals_than_faces_stops_at_the_normals() {
    let mesh = square(1, RenderMode::Solid);
    let out = render_one(&mesh, &seen(all_four(), vec![true], vec![]));
    assert_eq!(out, vec![DrawPrimitive::ColoredTriangle([A, B, C], blue())]);
}

#[test]
fn lit_faces_take_their_shade() {
    let mesh = square(2, RenderMode::SolidLightDir);
    let shades = vec![Color::new(0, 0, 102), Color::new(0, 0, 165)];
    let out = render_one(&mesh, &seen(all_four(), vec![true, true], shades.clone()));
    assert_eq!(
        out,
        vec![
            DrawPrimitive::ColoredTriangle([A, B, C], shades[0]),
            DrawPrimitive::ColoredTriangle([A, C, D], shades[1]),
        ]
    );
    let out = render_one(&mesh, &seen(all_four(), vec![true, false], shades.clone()));
    assert_eq!(out, vec![DrawPrimitive::ColoredTriangle([A, B, C], shades[0])]);
}

#[test]
fn lit_mesh_without_normals_draws_nothing() {
    let mesh = square(0, RenderMode::SolidLightDir);
    assert_eq!(render_one(&mesh, &seen(all_four(), vec![], vec![])), vec![]);
}

#[test]
fn render_mesh_appends() {
    let mesh = square(0, RenderMode::Solid);
    let view = seen(all_four(), vec![], vec![]);
    let mut out = vec![DrawPrimitive::ColoredPoint((1, 1), blue())];
    K3dengine::new(8, 6).render_mesh(&mesh, &view, &mut out);
    assert_eq!(out.len(), 3);
    assert_eq!(out[0], DrawPrimitive::ColoredPoint((1, 1), blue()));
}

#[test]
fn render_keeps_the_order_of_the_meshes() {
    let far = square(0, RenderMode::Points);
    let mut near = square(0, RenderMode::Solid);
    near.set_color(Color::new(7, 7, 7));
    let views = vec![
        seen(vec![Some(A), None, None, None], vec![], vec![]),
        seen(all_four(), vec![], vec![]),
    ];
    let out = K3dengine::new(800, 600).render(&vec![far.clone(), near.clone()], &views);
    assert_eq!(
        out,
        vec![
            DrawPrimitive::ColoredPoint(A, blue()),
            DrawPrimitive::ColoredTriangle([A, B, C], Color::new(7, 7, 7)),
            DrawPrimitive::ColoredTriangle([A, C, D], Color::new(7, 7, 7)),
        ]
    );
    let views = vec![
        seen(all_four(), vec![], vec![]),
        seen(vec![Some(A), None, None, None], vec![], vec![]),
    ];
    let out = K3dengine::new(800, 600).render(&vec![near, far], &views);
    assert_eq!(out[2], DrawPrimitive::ColoredPoint(A, blue()));
    assert_eq!(out.len(), 3);
}

#[test]
fn render_of_no_meshes() {
    assert_eq!(K3dengine::new(1, 1).render(&Vec::new(), &Vec::new()), vec![]);
}

#[test]
fn projection_fits_by_its_lengths() {
    let mesh = square(2, RenderMode::Solid);
    assert!(seen(all_four(), vec![true, true], vec![]).check_fits(&mesh));
    assert!(!seen(vec![Some(A)], vec![true, true], vec![]).check_fits(&mesh));
    assert!(!seen(all_four(), vec![true], vec![]).check_fits(&mesh));
    let lit = square(2, RenderMode::SolidLightDir);
    assert!(!seen(all_four(), vec![true, true], vec![]).check_fits(&lit));
    assert!(seen(all_four(), vec![true, true], vec![blue(), blue()]).check_fits(&lit));
}
