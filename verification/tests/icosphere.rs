use mdsim::icosphere::create_icosphere;
use mdsim::icosphere::Vertex;
use mdsim::icosphere::MAX_RECURSION_LEVEL;
use mdsim::mesh::Geometry;

fn corner(k: usize) -> [f64; 3] {
    let t = (1.0 + 5_f64.sqrt()) / 2.0;
    [
        [-1.0, t, 0.0],
        [1.0, t, 0.0],
        [-1.0, -t, 0.0],
        [1.0, -t, 0.0],
        [0.0, -1.0, t],
        [0.0, 1.0, t],
        [0.0, -1.0, -t],
        [0.0, 1.0, -t],
        [t, 0.0, -1.0],
        [t, 0.0, 1.0],
        [-t, 0.0, -1.0],
        [-t, 0.0, 1.0],
    ][k]
}

fn on_sphere(p: [f64; 3]) -> [f64; 3] {
    let l = (p[0] * p[0] + p[1] * p[1] + p[2] * p[2]).sqrt();
    [p[0] / l, p[1] / l, p[2] / l]
}

fn place(vertices: &Vec<Vertex>) -> Vec<[f64; 3]> {
    let mut out: Vec<[f64; 3]> = Vec::new();
    for v in vertices {
        let p = match *v {
            Vertex::Corner(k) => corner(k),
            Vertex::Midpoint(a, b) => [
                (out[a][0] + out[b][0]) / 2.0,
                (out[a][1] + out[b][1]) / 2.0,
                (out[a][2] + out[b][2]) / 2.0,
            ],
        };
        out.push(on_sphere(p));
    }
    out
}

#[test]
fn level_zero_is_the_icosahedron() {
    let (vertices, faces) = create_icosphere(0);
    assert_eq!(vertices, (0..12).map(Vertex::Corner).collect::<Vec<_>>());
    assert_eq!(
        faces,
        vec![
            [0, 11, 5],
            [0, 5, 1],
            [0, 1, 7],
            [0, 7, 10],
            [0, 10, 11],
            [1, 5, 9],
            [5, 11, 4],
            [11, 10, 2],
            [10, 7, 6],
            [7, 1, 8],
            [3, 9, 4],
            [3, 4, 2],
            [3, 2, 6],
            [3, 6, 8],
            [3, 8, 9],
            [4, 9, 5],
            [2, 4, 11],
            [6, 2, 10],
            [8, 6, 7],
            [9, 8, 1],
        ]
    );
}

#[test]
fn each_level_has_four_times_the_faces() {
    let mut expected = 20;
    for level in 0..=5 {
        let (_, faces) = create_icosphere(level);
        assert_eq!(faces.len(), expected);
        expected *= 4;
    }
}

#[test]
fn each_edge_gets_one_midpoint() {
    for (level, count) in [(0usize, 12usize), (1, 42), (2, 162), (3, 642), (4, 2562)] {
        let (vertices, _) = create_icosphere(level);
        assert_eq!(vertices.len(), count);
    }
}

#[test]
fn level_one_begins_with_the_first_face_split_in_four() {
    let (vertices, faces) = create_icosphere(1);
    assert_eq!(vertices[12], Vertex::Midpoint(0, 11));
    assert_eq!(vertices[13], Vertex::Midpoint(5, 11));
    assert_eq!(vertices[14], Vertex::Midpoint(0, 5));
    assert_eq!(faces[0], [0, 12, 14]);
    assert_eq!(faces[1], [11, 13, 12]);
    assert_eq!(faces[2], [5, 14, 13]);
    assert_eq!(faces[3], [12, 13, 14]);
    // the second face shares the edge between corners 0 and 5
    assert_eq!(vertices[15], Vertex::Midpoint(1, 5));
    assert_eq!(vertices[16], Vertex::Midpoint(0, 1));
    assert_eq!(faces[4], [0, 14, 16]);
    assert_eq!(faces[5], [5, 15, 14]);
    assert_eq!(faces[6], [1, 16, 15]);
    assert_eq!(faces[7], [14, 15, 16]);
}

#[test]
fn midpoints_lie_between_earlier_vertices_and_none_is_twice() {
    let (vertices, _) = create_icosphere(3);
    let mut seen = std::collections::HashSet::new();
    for (i, v) in vertices.iter().enumerate() {
        match *v {
            Vertex::Corner(k) => {
                assert!(i < 12);
                assert_eq!(k, i);
            }
            Vertex::Midpoint(a, b) => {
                assert!(i >= 12);
                assert!(a < b && b < i);
                assert!(seen.insert((a, b)));
            }
        }
    }
}

#[test]
fn faces_name_existing_vertices() {
    for level in 0..=3 {
        let (vertices, faces) = create_icosphere(level);
        for f in &faces {
            assert!(f[0] < vertices.len() && f[1] < vertices.len() && f[2] < vertices.len());
            assert!(f[0] != f[1] && f[1] != f[2] && f[0] != f[2]);
        }
        let geometry = Geometry {
            vertex_count: vertices.len(),
            faces,
            colors: Vec::new(),
            lines: Vec::new(),
            normal_count: 0,
        };
        assert!(geometry.check_validity());
    }
}

#[test]
fn every_vertex_lies_on_the_unit_sphere() {
    for level in 0..=3 {
        let (vertices, _) = create_icosphere(level);
        for p in place(&vertices) {
            let d = (p[0] * p[0] + p[1] * p[1] + p[2] * p[2]).sqrt();
            assert!((d - 1.0).abs() < 1e-12);
        }
    }
}

#[test]
fn faces_are_wound_outwards() {
    let (vertices, faces) = create_icosphere(2);
    let p = place(&vertices);
    for f in &faces {
        let (a, b, c) = (p[f[0]], p[f[1]], p[f[2]]);
        let u = [b[0] - a[0], b[1] - a[1], b[2] - a[2]];
        let v = [c[0] - a[0], c[1] - a[1], c[2] - a[2]];
        let n = [u[1] * v[2] - u[2] * v[1], u[2] * v[0] - u[0] * v[2], u[0] * v[1] - u[1] * v[0]];
        let first = n[0] * a[0] + n[1] * a[1] + n[2] * a[2];
        let (a0, b0, c0) = (p[faces[0][0]], p[faces[0][1]], p[faces[0][2]]);
        let u0 = [b0[0] - a0[0], b0[1] - a0[1], b0[2] - a0[2]];
        let v0 = [c0[0] - a0[0], c0[1] - a0[1], c0[2] - a0[2]];
        let n0 = [u0[1] * v0[2] - u0[2] * v0[1], u0[2] * v0[0] - u0[0] * v0[2], u0[0] * v0[1] - u0[1] * v0[0]];
        let reference = n0[0] * a0[0] + n0[1] * a0[1] + n0[2] * a0[2];
        assert!(first * reference > 0.0);
    }
}

#[test]
fn deepest_level_is_thirteen() {
    assert_eq!(MAX_RECURSION_LEVEL, 13);
}
