//! The mesh to store 3D objects: which vertices exist, and the faces, lines
//! and colours that refer to them by index.

use crate::color::Color;
use vstd::prelude::*;

verus! {

/// How to render a Geometry object.
#[derive(Debug, PartialEq, Eq, Copy, Clone, Structural)]
pub enum RenderMode {
    /// One point for each vertex.
    Points,
    /// The explicit lines, or else the edges of the faces.
    Lines,
    /// Filled faces in the colour of the mesh.
    Solid,
    /// Filled faces, each in the colour a directional light gives it.
    SolidLightDir,
}

/// The index structure of a 3D object. Positions and normals are held by the
/// caller, one position for each of `vertex_count` vertices and one normal
/// for each of the first `normal_count` faces.
#[derive(Debug, Clone)]
pub struct Geometry {
    pub vertex_count: usize,
    pub faces: Vec<[usize; 3]>,
    pub colors: Vec<Color>,
    pub lines: Vec<[usize; 2]>,
    pub normal_count: usize,
}

/// An edge between two vertices, the smaller index first.
pub open spec fn edge(a: usize, b: usize) -> (usize, usize) {
    if a < b {
        (a, b)
    } else {
        (b, a)
    }
}

/// `lines` with `line` behind it, unless `lines` holds it already.
pub open spec fn with_line(lines: Seq<(usize, usize)>, line: (usize, usize)) -> Seq<
    (usize, usize),
> {
    if lines.contains(line) {
        lines
    } else {
        lines.push(line)
    }
}

/// `lines` followed by those of the three edges of `face` that are new.
pub open spec fn with_face(lines: Seq<(usize, usize)>, face: [usize; 3]) -> Seq<(usize, usize)> {
    with_line(
        with_line(with_line(lines, edge(face[0], face[1])), edge(face[1], face[2])),
        edge(face[2], face[0]),
    )
}

/// The distinct edges of `faces`, each where it first occurs.
pub open spec fn face_lines(faces: Seq<[usize; 3]>) -> Seq<(usize, usize)>
    decreases faces.len(),
{
    if faces.len() == 0 {
        Seq::empty()
    } else {
        with_face(face_lines(faces.drop_last()), faces.last())
    }
}

/// Whether `line` is an edge of `face`, in either direction.
pub open spec fn is_edge_of(line: (usize, usize), face: [usize; 3]) -> bool {
    line == edge(face[0], face[1]) || line == edge(face[1], face[2]) || line == edge(
        face[2],
        face[0],
    )
}

/// The lines made of a list of faces are exactly the edges of those faces,
/// each once, the smaller vertex index first.
pub proof fn lemma_face_lines(faces: Seq<[usize; 3]>)
    ensures
        face_lines(faces).no_duplicates(),
        forall|k: int|
            0 <= k < face_lines(faces).len() ==> (#[trigger] face_lines(faces)[k]).0
                <= face_lines(faces)[k].1,
        forall|line: (usize, usize)|
            face_lines(faces).contains(line) <==> exists|i: int|
                0 <= i < faces.len() && is_edge_of(line, #[trigger] faces[i]),
    decreases faces.len(),
{
    if faces.len() == 0 {
    } else {
        let init = faces.drop_last();
        let face = faces.last();
        lemma_face_lines(init);
        let l0 = face_lines(init);
        let l1 = with_line(l0, edge(face[0], face[1]));
        let l2 = with_line(l1, edge(face[1], face[2]));
        let l3 = with_line(l2, edge(face[2], face[0]));
        lemma_with_line(l0, edge(face[0], face[1]));
        lemma_with_line(l1, edge(face[1], face[2]));
        lemma_with_line(l2, edge(face[2], face[0]));
        assert(face_lines(faces) == l3);
        assert forall|line: (usize, usize)| l3.contains(line) <==> exists|i: int|
            0 <= i < faces.len() && is_edge_of(line, #[trigger] faces[i]) by {
            if l3.contains(line) {
                if l0.contains(line) {
                    let i = choose|i: int| 0 <= i < init.len() && is_edge_of(line, #[trigger] init[i]);
                    assert(faces[i] == init[i]);
                } else {
                    assert(is_edge_of(line, faces[faces.len() - 1]));
                }
            }
            if exists|i: int| 0 <= i < faces.len() && is_edge_of(line, #[trigger] faces[i]) {
                let i = choose|i: int| 0 <= i < faces.len() && is_edge_of(line, #[trigger] faces[i]);
                if i < init.len() {
                    assert(is_edge_of(line, init[i]));
                    assert(l0.contains(line));
                }
            }
        }
    }
}

/// What `with_line` keeps and adds.
proof fn lemma_with_line(lines: Seq<(usize, usize)>, line: (usize, usize))
    requires
        lines.no_duplicates(),
    ensures
        with_line(lines, line).no_duplicates(),
        forall|l: (usize, usize)|
            with_line(lines, line).contains(l) <==> (lines.contains(l) || l == line),
        forall|k: int|
            0 <= k < with_line(lines, line).len() ==> (#[trigger] with_line(lines, line)[k]
                == line || (k < lines.len() && with_line(lines, line)[k] == lines[k])),
{
    let out = with_line(lines, line);
    if !lines.contains(line) {
        assert forall|l: (usize, usize)| out.contains(l) <==> (lines.contains(l) || l
            == line) by {
            if lines.contains(l) {
                let k = choose|k: int| 0 <= k < lines.len() && lines[k] == l;
                assert(out[k] == l);
            }
            if l == line {
                assert(out[lines.len() as int] == l);
            }
        }
    }
}

impl Default for Geometry {
    /// A geometry without vertices, faces, lines, colours or normals.
    fn default() -> (geometry: Geometry)
        ensures
            geometry.vertex_count == 0,
            geometry.normal_count == 0,
            geometry.faces@.len() == 0,
            geometry.colors@.len() == 0,
            geometry.lines@.len() == 0,
    {
        Geometry {
            vertex_count: 0,
            faces: Vec::new(),
            colors: Vec::new(),
            lines: Vec::new(),
            normal_count: 0,
        }
    }
}

impl Geometry {
    /// Every face and every line names vertices that exist.
    pub open spec fn indices_in_range(&self) -> bool {
        &&& forall|i: int, k: int|
            0 <= i < self.faces@.len() && 0 <= k < 3 ==> (#[trigger] self.faces@[i][k])
                < self.vertex_count
        &&& forall|i: int, k: int|
            0 <= i < self.lines@.len() && 0 <= k < 2 ==> (#[trigger] self.lines@[i][k])
                < self.vertex_count
    }

    /// There is at least one vertex, every face and line names vertices that
    /// exist, and colours, where there are any, come one for each vertex.
    pub open spec fn valid(&self) -> bool {
        &&& self.vertex_count > 0
        &&& self.indices_in_range()
        &&& (self.colors@.len() == 0 || self.colors@.len() == self.vertex_count)
    }

    /// Check if a Geometry object is valid.
    pub fn check_validity(&self) -> (ok: bool)
        ensures
            ok == self.valid(),
    {
        if self.vertex_count == 0 {
            return false;
        }
        let mut i: usize = 0;
        while i < self.faces.len()
            invariant
                i <= self.faces@.len(),
                forall|j: int, k: int|
                    0 <= j < i && 0 <= k < 3 ==> (#[trigger] self.faces@[j][k]) < self.vertex_count,
            decreases self.faces@.len() - i,
        {
            let face = &self.faces[i];
            if face[0] >= self.vertex_count || face[1] >= self.vertex_count || face[2]
                >= self.vertex_count {
                return false;
            }
            i += 1;
        }
        let mut i: usize = 0;
        while i < self.lines.len()
            invariant
                i <= self.lines@.len(),
                forall|j: int, k: int|
                    0 <= j < i && 0 <= k < 2 ==> (#[trigger] self.lines@[j][k]) < self.vertex_count,
            decreases self.lines@.len() - i,
        {
            let line = &self.lines[i];
            if line[0] >= self.vertex_count || line[1] >= self.vertex_count {
                return false;
            }
            i += 1;
        }
        if self.colors.len() != 0 && self.colors.len() != self.vertex_count {
            return false;
        }
        true
    }

    /// Create lines along the edges of faces: every edge once, the smaller
    /// vertex index first, in the order in which the faces bring them.
    pub fn lines_from_faces(faces: &[[usize; 3]]) -> (lines: Vec<(usize, usize)>)
        ensures
            lines@ == face_lines(faces@),
    {
        let mut lines: Vec<(usize, usize)> = Vec::new();
        let mut i: usize = 0;
        while i < faces.len()
            invariant
                i <= faces@.len(),
                lines@ == face_lines(faces@.take(i as int)),
            decreases faces@.len() - i,
        {
            let face = &faces[i];
            let ghost before = lines@;
            push_line(&mut lines, face[0], face[1]);
            push_line(&mut lines, face[1], face[2]);
            push_line(&mut lines, face[2], face[0]);
            proof {
                let next = faces@.take(i + 1);
                assert(next.drop_last() == faces@.take(i as int));
                assert(next.last() == faces@[i as int]);
            }
            i += 1;
        }
        proof {
            assert(faces@.take(i as int) == faces@);
        }
        lines
    }
}

/// A geometry with a face that names a vertex that does not exist is not
/// valid.
pub proof fn lemma_face_out_of_range_is_invalid(geometry: Geometry, i: int, k: int)
    requires
        0 <= i < geometry.faces@.len(),
        0 <= k < 3,
        geometry.faces@[i][k] >= geometry.vertex_count,
    ensures
        !geometry.valid(),
{
}

/// A geometry with a line that names a vertex that does not exist is not
/// valid.
pub proof fn lemma_line_out_of_range_is_invalid(geometry: Geometry, i: int, k: int)
    requires
        0 <= i < geometry.lines@.len(),
        0 <= k < 2,
        geometry.lines@[i][k] >= geometry.vertex_count,
    ensures
        !geometry.valid(),
{
}

/// A geometry that has colours, but not one for each vertex, is not valid.
pub proof fn lemma_color_mismatch_is_invalid(geometry: Geometry)
    requires
        geometry.colors@.len() != 0,
        geometry.colors@.len() != geometry.vertex_count,
    ensures
        !geometry.valid(),
{
}

/// A mesh representing a 3D object and how it should be displayed. Where it
/// stands in space is the caller's to keep.
#[derive(Debug, Clone)]
pub struct K3dMesh {
    pub color: Color,
    pub render_mode: RenderMode,
    pub geometry: Geometry,
}

impl K3dMesh {
    /// Create a new mesh based on a Geometry object: white, drawn as points.
    pub fn new(geometry: Geometry) -> (mesh: K3dMesh)
        requires
            geometry.valid(),
        ensures
            mesh.geometry == geometry,
            mesh.color == (Color { r: 255, g: 255, b: 255 }),
            mesh.render_mode == RenderMode::Points,
    {
        K3dMesh { color: Color::white(), render_mode: RenderMode::Points, geometry }
    }

    /// Set the color of the mesh.
    pub fn set_color(&mut self, color: Color)
        ensures
            final(self).color == color,
            final(self).render_mode == old(self).render_mode,
            final(self).geometry == old(self).geometry,
    {
        self.color = color;
    }

    /// Set the render mode of the mesh.
    pub fn set_render_mode(&mut self, mode: RenderMode)
        ensures
            final(self).render_mode == mode,
            final(self).color == old(self).color,
            final(self).geometry == old(self).geometry,
    {
        self.render_mode = mode;
    }
}

/// Appends the edge between `a` and `b` unless `lines` holds it already.
fn push_line(lines: &mut Vec<(usize, usize)>, a: usize, b: usize)
    ensures
        final(lines)@ == with_line(old(lines)@, edge(a, b)),
{
    let line = if a < b { (a, b) } else { (b, a) };
    let mut k: usize = 0;
    while k < lines.len()
        invariant
            k <= lines@.len(),
            lines@ == old(lines)@,
            line == edge(a, b),
            forall|j: int| 0 <= j < k ==> lines@[j] != line,
        decreases lines@.len() - k,
    {
        if lines[k].0 == line.0 && lines[k].1 == line.1 {
            assert(lines@[k as int] == line);
            return ;
        }
        k += 1;
    }
    lines.push(line);
}

} // verus!
