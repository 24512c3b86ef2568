//! Simple 3D graphics engine: turns meshes, once their vertices are
//! projected onto the screen, into 2D primitives to draw.
//!
//! Meshes are drawn in the order given and faces in the order of the mesh:
//! nothing is sorted by depth, so what is drawn later covers what was drawn
//! before, and a caller who cares submits the farthest mesh first.

use crate::color::Color;
use crate::mesh::K3dMesh;
use crate::mesh::RenderMode;
use vstd::prelude::*;

verus! {

/// 2D primitive type to draw, in screen coordinates.
#[derive(Debug, Clone, Copy, PartialEq, Eq)]
pub enum DrawPrimitive {
    ColoredPoint((i32, i32), Color),
    Line([(i32, i32); 2], Color),
    ColoredTriangle([(i32, i32); 3], Color),
}

/// What the camera makes of one mesh.
#[derive(Debug, Clone)]
pub struct Projection {
    /// For each vertex its place on the screen, or `None` where it lies
    /// behind the camera or outside the clip distances.
    pub points: Vec<Option<(i32, i32)>>,
    /// For each face that has a normal, whether it is turned towards the
    /// camera.
    pub facing: Vec<bool>,
    /// For each face that has a normal, the colour the light gives it.
    pub shades: Vec<Color>,
}

/// The ways in which the items of a mesh become primitives.
#[derive(Debug, Clone, Copy, PartialEq, Eq, Structural)]
pub enum Pass {
    /// A point for each vertex.
    Vertices,
    /// A line for each explicit line.
    Lines,
    /// Three lines for each face.
    Edges,
    /// A triangle for each face.
    Faces,
    /// A triangle for each face that is turned towards the camera.
    FrontFaces,
    /// A triangle in its lit colour for each face turned towards the camera.
    LitFaces,
}

/// The screen positions of the three corners of face `i`, where all three
/// vertices have one.
pub open spec fn corners(mesh: &K3dMesh, view: &Projection, i: int) -> Option<[(i32, i32); 3]> {
    let face = mesh.geometry.faces@[i];
    match (
        view.points@[face[0] as int],
        view.points@[face[1] as int],
        view.points@[face[2] as int],
    ) {
        (Some(p1), Some(p2), Some(p3)) => Some([p1, p2, p3]),
        _ => None,
    }
}

/// The triangle of face `i` in `color`, where the face is not dropped.
pub open spec fn triangle(mesh: &K3dMesh, view: &Projection, i: int, color: Color) -> Seq<
    DrawPrimitive,
> {
    match corners(mesh, view, i) {
        Some(c) => seq![DrawPrimitive::ColoredTriangle(c, color)],
        None => Seq::empty(),
    }
}

/// The primitives that item `i` of a mesh gives in a pass. A vertex that has
/// no screen position gives no point, and a line or a face with such a
/// vertex is dropped whole.
pub open spec fn item_primitives(pass: Pass, mesh: &K3dMesh, view: &Projection, i: int) -> Seq<
    DrawPrimitive,
> {
    match pass {
        Pass::Vertices => match view.points@[i] {
            Some(p) => seq![
                DrawPrimitive::ColoredPoint(
                    p,
                    if mesh.geometry.colors@.len() == mesh.geometry.vertex_count {
                        mesh.geometry.colors@[i]
                    } else {
                        mesh.color
                    },
                ),
            ],
            None => Seq::empty(),
        },
        Pass::Lines => {
            let line = mesh.geometry.lines@[i];
            match (view.points@[line[0] as int], view.points@[line[1] as int]) {
                (Some(p1), Some(p2)) => seq![DrawPrimitive::Line([p1, p2], mesh.color)],
                _ => Seq::empty(),
            }
        },
        Pass::Edges => match corners(mesh, view, i) {
            Some(c) => seq![
                DrawPrimitive::Line([c[0], c[1]], mesh.color),
                DrawPrimitive::Line([c[1], c[2]], mesh.color),
                DrawPrimitive::Line([c[2], c[0]], mesh.color),
            ],
            None => Seq::empty(),
        },
        Pass::Faces => triangle(mesh, view, i, mesh.color),
        Pass::FrontFaces => if view.facing@[i] {
            triangle(mesh, view, i, mesh.color)
        } else {
            Seq::empty()
        },
        Pass::LitFaces => if view.facing@[i] {
            triangle(mesh, view, i, view.shades@[i])
        } else {
            Seq::empty()
        },
    }
}

/// The primitives of the first `n` items of a mesh in a pass, in the order of
/// the items.
pub open spec fn pass_primitives(pass: Pass, mesh: &K3dMesh, view: &Projection, n: int) -> Seq<
    DrawPrimitive,
>
    decreases n,
{
    if n <= 0 {
        Seq::empty()
    } else {
        pass_primitives(pass, mesh, view, n - 1) + item_primitives(pass, mesh, view, n - 1)
    }
}

/// The smaller of two counts.
pub open spec fn fewer(a: int, b: int) -> int {
    if a < b {
        a
    } else {
        b
    }
}

/// The pass that the render mode of a mesh asks for. Lines are the explicit
/// lines where there are any, else the edges of the faces. Solid faces are
/// culled where the mesh has normals and all drawn where it has none.
pub open spec fn mesh_pass(mesh: &K3dMesh) -> Pass {
    match mesh.render_mode {
        RenderMode::Points => Pass::Vertices,
        RenderMode::Lines => if mesh.geometry.lines@.len() > 0 {
            Pass::Lines
        } else {
            Pass::Edges
        },
        RenderMode::Solid => if mesh.geometry.normal_count == 0 {
            Pass::Faces
        } else {
            Pass::FrontFaces
        },
        RenderMode::SolidLightDir => Pass::LitFaces,
    }
}

/// How many items a pass over a mesh has: its vertices, its lines, its
/// faces, or its faces as far as they have normals.
pub open spec fn pass_len(pass: Pass, mesh: &K3dMesh) -> int {
    match pass {
        Pass::Vertices => mesh.geometry.vertex_count as int,
        Pass::Lines => mesh.geometry.lines@.len() as int,
        Pass::Edges | Pass::Faces => mesh.geometry.faces@.len() as int,
        Pass::FrontFaces | Pass::LitFaces => fewer(
            mesh.geometry.faces@.len() as int,
            mesh.geometry.normal_count as int,
        ),
    }
}

/// The primitives that one mesh gives.
pub open spec fn mesh_primitives(mesh: &K3dMesh, view: &Projection) -> Seq<DrawPrimitive> {
    pass_primitives(mesh_pass(mesh), mesh, view, pass_len(mesh_pass(mesh), mesh))
}

/// The primitives of the first `n` meshes, in the order of the meshes.
pub open spec fn scene_primitives(meshes: Seq<K3dMesh>, views: Seq<Projection>, n: int) -> Seq<
    DrawPrimitive,
>
    decreases n,
{
    if n <= 0 {
        Seq::empty()
    } else {
        scene_primitives(meshes, views, n - 1) + mesh_primitives(&meshes[n - 1], &views[n - 1])
    }
}

impl Projection {
    /// The projection has a screen position for each vertex of the mesh, a
    /// facing for each normal and, where the mesh is lit, a shade for each
    /// normal.
    pub open spec fn fits(&self, mesh: &K3dMesh) -> bool {
        &&& self.points@.len() == mesh.geometry.vertex_count
        &&& self.facing@.len() == mesh.geometry.normal_count
        &&& (mesh.render_mode == RenderMode::SolidLightDir ==> self.shades@.len()
            == mesh.geometry.normal_count)
    }

    /// Whether this projection fits `mesh`.
    pub fn check_fits(&self, mesh: &K3dMesh) -> (ok: bool)
        ensures
            ok == self.fits(mesh),
    {
        let lit = match mesh.render_mode {
            RenderMode::SolidLightDir => true,
            _ => false,
        };
        self.points.len() == mesh.geometry.vertex_count && self.facing.len()
            == mesh.geometry.normal_count && (!lit || self.shades.len()
            == mesh.geometry.normal_count)
    }
}

/// 3D graphics engine for a screen of a given size.
#[derive(Debug, Clone, Copy, PartialEq, Eq)]
pub struct K3dengine {
    pub width: u16,
    pub height: u16,
}

impl K3dengine {
    /// Create a new engine.
    pub fn new(width: u16, height: u16) -> (engine: K3dengine)
        ensures
            engine.width == width,
            engine.height == height,
    {
        K3dengine { width, height }
    }

    /// Render multiple meshes, each with its projection: the primitives to
    /// draw, in drawing order.
    pub fn render(&self, meshes: &Vec<K3dMesh>, views: &Vec<Projection>) -> (out: Vec<
        DrawPrimitive,
    >)
        requires
            meshes@.len() == views@.len(),
            forall|m: int|
                0 <= m < meshes@.len() ==> (#[trigger] meshes@[m]).geometry.indices_in_range()
                    && views@[m].fits(&meshes@[m]),
        ensures
            out@ == scene_primitives(meshes@, views@, meshes@.len() as int),
    {
        let mut out: Vec<DrawPrimitive> = Vec::new();
        let mut m: usize = 0;
        while m < meshes.len()
            invariant
                m <= meshes@.len(),
                meshes@.len() == views@.len(),
                forall|m: int|
                    0 <= m < meshes@.len() ==> (#[trigger] meshes@[m]).geometry.indices_in_range()
                        && views@[m].fits(&meshes@[m]),
                out@ == scene_primitives(meshes@, views@, m as int),
            decreases meshes@.len() - m,
        {
            self.render_mesh(&meshes[m], &views[m], &mut out);
            m += 1;
        }
        out
    }

    /// Render one mesh: appends its primitives to `out`.
    pub fn render_mesh(&self, mesh: &K3dMesh, view: &Projection, out: &mut Vec<DrawPrimitive>)
        requires
            mesh.geometry.indices_in_range(),
            view.fits(mesh),
        ensures
            final(out)@ == old(out)@ + mesh_primitives(mesh, view),
    {
        let geometry = &mesh.geometry;
        let faces = geometry.faces.len();
        let normals = if faces < geometry.normal_count {
            faces
        } else {
            geometry.normal_count
        };
        let (pass, count) = match mesh.render_mode {
            RenderMode::Points => (Pass::Vertices, geometry.vertex_count),
            RenderMode::Lines => if geometry.lines.len() > 0 {
                (Pass::Lines, geometry.lines.len())
            } else {
                (Pass::Edges, faces)
            },
            RenderMode::Solid => if geometry.normal_count == 0 {
                (Pass::Faces, faces)
            } else {
                (Pass::FrontFaces, normals)
            },
            RenderMode::SolidLightDir => (Pass::LitFaces, normals),
        };
        let mut i: usize = 0;
        while i < count
            invariant
                i <= count,
                pass == mesh_pass(mesh),
                count == pass_len(pass, mesh),
                mesh.geometry.indices_in_range(),
                view.fits(mesh),
                out@ == old(out)@ + pass_primitives(pass, mesh, view, i as int),
            decreases count - i,
        {
            render_item(pass, mesh, view, i, out);
            i += 1;
        }
    }
}

/// The screen positions of the corners of face `i`, unless a vertex has none.
fn face_corners(mesh: &K3dMesh, view: &Projection, i: usize) -> (c: Option<[(i32, i32); 3]>)
    requires
        mesh.geometry.indices_in_range(),
        view.points@.len() == mesh.geometry.vertex_count,
        i < mesh.geometry.faces@.len(),
    ensures
        c == corners(mesh, view, i as int),
{
    let face = &mesh.geometry.faces[i];
    match (view.points[face[0]], view.points[face[1]], view.points[face[2]]) {
        (Some(p1), Some(p2), Some(p3)) => Some([p1, p2, p3]),
        _ => None,
    }
}

/// Appends the primitives of item `i` of a pass.
fn render_item(pass: Pass, mesh: &K3dMesh, view: &Projection, i: usize, out: &mut Vec<DrawPrimitive>)
    requires
        mesh.geometry.indices_in_range(),
        view.fits(mesh),
        pass == mesh_pass(mesh),
        i < pass_len(pass, mesh),
    ensures
        final(out)@ == old(out)@ + item_primitives(pass, mesh, view, i as int),
{
    let geometry = &mesh.geometry;
    match pass {
        Pass::Vertices => {
            if let Some(p) = view.points[i] {
                let color = if geometry.colors.len() == geometry.vertex_count {
                    geometry.colors[i]
                } else {
                    mesh.color
                };
                out.push(DrawPrimitive::ColoredPoint(p, color));
            }
        },
        Pass::Lines => {
            let line = &geometry.lines[i];
            if let (Some(p1), Some(p2)) = (view.points[line[0]], view.points[line[1]]) {
                out.push(DrawPrimitive::Line([p1, p2], mesh.color));
            }
        },
        Pass::Edges => {
            if let Some(c) = face_corners(mesh, view, i) {
                out.push(DrawPrimitive::Line([c[0], c[1]], mesh.color));
                out.push(DrawPrimitive::Line([c[1], c[2]], mesh.color));
                out.push(DrawPrimitive::Line([c[2], c[0]], mesh.color));
            }
        },
        Pass::Faces => {
            if let Some(c) = face_corners(mesh, view, i) {
                out.push(DrawPrimitive::ColoredTriangle(c, mesh.color));
            }
        },
        Pass::FrontFaces => {
            if view.facing[i] {
                if let Some(c) = face_corners(mesh, view, i) {
                    out.push(DrawPrimitive::ColoredTriangle(c, mesh.color));
                }
            }
        },
        Pass::LitFaces => {
            if view.facing[i] {
                if let Some(c) = face_corners(mesh, view, i) {
                    out.push(DrawPrimitive::ColoredTriangle(c, view.shades[i]));
                }
            }
        },
    }
}

} // verus!
