//! The rasterizer: writes 2D primitives into a framebuffer.
//!
//! Points and lines are drawn here. A triangle is filled scan line by scan
//! line between two edges whose slopes are not whole numbers; this module
//! puts its corners in order and tells which way it is flat, and the caller
//! walks the edges and draws each span with
//! `FrameBuffer::draw_horizontal_line`.

use crate::color::Color;
use crate::engine::DrawPrimitive;
use crate::framebuffer::painted;
use crate::framebuffer::FrameBuffer;
use line_drawing::Bresenham;
use vstd::prelude::*;

verus! {

/// The largest distance from zero that a coordinate of a line's end may
/// have, so that the differences between two ends stay inside 32 bits.
pub const COORD_LIMIT: i32 = 0x3fff_ffff;

/// Whether both coordinates of a point are within `COORD_LIMIT` of zero.
pub open spec fn within_limit(p: (i32, i32)) -> bool {
    -COORD_LIMIT <= p.0 <= COORD_LIMIT && -COORD_LIMIT <= p.1 <= COORD_LIMIT
}

/// The points that Bresenham's line algorithm, as `line_drawing::Bresenham`
/// runs it, visits on the way from `start` to `end`, in that order.
pub uninterp spec fn bresenham_line(start: (i32, i32), end: (i32, i32)) -> Seq<(i32, i32)>;

/// Calls `line_drawing::Bresenham::new` and collects what the iterator
/// yields. The contract gives the list of points its name and claims that
/// it begins with `start` and ends with `end`, as the crate documents
/// ("includes both the start and end point"), and that the call returns for
/// ends within `COORD_LIMIT` of zero: there no difference, negation or error
/// term of the algorithm leaves 32 bits.
#[verifier::external_body]
fn bresenham(start: (i32, i32), end: (i32, i32)) -> (points: Vec<(i32, i32)>)
    requires
        within_limit(start),
        within_limit(end),
    ensures
        points@ == bresenham_line(start, end),
        points@.len() >= 1,
        points@[0] == start,
        points@[points@.len() - 1] == end,
{
    Bresenham::new(start, end).collect()
}

/// Whether the point in column `x` of row `y` is among `points`.
pub open spec fn on_path(points: Seq<(i32, i32)>, x: int, y: int) -> bool {
    exists|i: int| 0 <= i < points.len() && (#[trigger] points[i]).0 == x && points[i].1 == y
}

/// Which of its sides, if any, lies along a scan line, for a triangle whose
/// corners are in order from top to bottom.
#[derive(Debug, Clone, Copy, PartialEq, Eq, Structural)]
pub enum TriangleShape {
    /// The two lower corners are on one row.
    BottomFlat,
    /// The two upper corners are on one row, the third lies lower.
    TopFlat,
    /// No two neighbouring corners share a row: the triangle is split at
    /// the row of the middle corner into a bottom-flat and a top-flat one.
    General,
}

/// A triangle ready to be filled.
#[derive(Debug, Clone, Copy, PartialEq, Eq)]
pub struct SortedTriangle {
    /// The corners by ascending row.
    pub vertices: [(i32, i32); 3],
    pub shape: TriangleShape,
    pub color: Color,
}

/// Three corners put in order by ascending row; corners on the same row
/// keep the order they came in.
pub open spec fn sorted_by_y(v: [(i32, i32); 3]) -> [(i32, i32); 3] {
    let (a, b) = if v[1].1 < v[0].1 {
        (v[1], v[0])
    } else {
        (v[0], v[1])
    };
    if v[2].1 < a.1 {
        [v[2], a, b]
    } else if v[2].1 < b.1 {
        [a, v[2], b]
    } else {
        [a, b, v[2]]
    }
}

/// The shape of a triangle whose corners are in order by row.
pub open spec fn shape_of(v: [(i32, i32); 3]) -> TriangleShape {
    if v[1].1 == v[2].1 {
        TriangleShape::BottomFlat
    } else if v[0].1 == v[1].1 {
        TriangleShape::TopFlat
    } else {
        TriangleShape::General
    }
}

/// `out` holds the corners `v[i0]`, `v[i1]`, `v[i2]`, each corner of `v`
/// once, and corners on the same row are in the order they have in `v`.
pub open spec fn stable_order(
    v: [(i32, i32); 3],
    out: [(i32, i32); 3],
    i0: int,
    i1: int,
    i2: int,
) -> bool {
    &&& 0 <= i0 < 3 && 0 <= i1 < 3 && 0 <= i2 < 3
    &&& i0 != i1 && i1 != i2 && i0 != i2
    &&& out[0] == v[i0] && out[1] == v[i1] && out[2] == v[i2]
    &&& (out[0].1 == out[1].1 ==> i0 < i1)
    &&& (out[1].1 == out[2].1 ==> i1 < i2)
    &&& (out[0].1 == out[2].1 ==> i0 < i2)
}

/// Sorting by row gives the same three corners, in ascending order of their
/// rows, and leaves corners on the same row in the order they came in.
pub proof fn lemma_sorted_by_y(v: [(i32, i32); 3])
    ensures
        sorted_by_y(v)[0].1 <= sorted_by_y(v)[1].1 <= sorted_by_y(v)[2].1,
        exists|i0: int, i1: int, i2: int| stable_order(v, sorted_by_y(v), i0, i1, i2),
{
    let out = sorted_by_y(v);
    if v[1].1 < v[0].1 {
        if v[2].1 < v[1].1 {
            assert(stable_order(v, out, 2, 1, 0));
        } else if v[2].1 < v[0].1 {
            assert(stable_order(v, out, 1, 2, 0));
        } else {
            assert(stable_order(v, out, 1, 0, 2));
        }
    } else {
        if v[2].1 < v[0].1 {
            assert(stable_order(v, out, 2, 0, 1));
        } else if v[2].1 < v[1].1 {
            assert(stable_order(v, out, 0, 2, 1));
        } else {
            assert(stable_order(v, out, 0, 1, 2));
        }
    }
}

/// Sort the corners of a triangle by row and tell its shape.
pub fn sort_triangle(vertices: [(i32, i32); 3], color: Color) -> (triangle: SortedTriangle)
    ensures
        triangle.vertices == sorted_by_y(vertices),
        triangle.shape == shape_of(triangle.vertices),
        triangle.color == color,
{
    let (a, b) = if vertices[1].1 < vertices[0].1 {
        (vertices[1], vertices[0])
    } else {
        (vertices[0], vertices[1])
    };
    let c = vertices[2];
    let sorted = if c.1 < a.1 {
        [c, a, b]
    } else if c.1 < b.1 {
        [a, c, b]
    } else {
        [a, b, c]
    };
    let shape = if sorted[1].1 == sorted[2].1 {
        TriangleShape::BottomFlat
    } else if sorted[0].1 == sorted[1].1 {
        TriangleShape::TopFlat
    } else {
        TriangleShape::General
    };
    SortedTriangle { vertices: sorted, shape, color }
}

/// Draw each of the points that lies within the frame.
pub fn draw_points(fb: &mut FrameBuffer, points: &Vec<(i32, i32)>, color: Color)
    requires
        old(fb).wf(),
    ensures
        final(fb).width == old(fb).width,
        final(fb).height == old(fb).height,
        final(fb).buffer@ == old(fb).painted(
            |x: int, y: int| on_path(points@, x, y),
            color.packed() as u32,
        ),
{
    let ghost word = color.packed() as u32;
    let mut i: usize = 0;
    assert(fb.buffer@ =~= old(fb).painted(
        |x: int, y: int| on_path(points@.take(0), x, y),
        word,
    ));
    while i < points.len()
        invariant
            i <= points@.len(),
            fb.wf(),
            fb.width == old(fb).width,
            fb.height == old(fb).height,
            word == color.packed() as u32,
            fb.buffer@ == old(fb).painted(
                |x: int, y: int| on_path(points@.take(i as int), x, y),
                word,
            ),
        decreases points@.len() - i,
    {
        let ghost before = fb.buffer@;
        let p = points[i];
        fb.draw_point(p, color);
        proof {
            let done = points@.take(i as int);
            let next = points@.take(i + 1);
            let target = old(fb).painted(|x: int, y: int| on_path(next, x, y), word);
            assert forall|x: int, y: int| on_path(next, x, y) <==> (on_path(done, x, y) || (x
                == p.0 && y == p.1)) by {
                if on_path(done, x, y) {
                    let j = choose|j: int|
                        0 <= j < done.len() && (#[trigger] done[j]).0 == x && done[j].1 == y;
                    assert(next[j] == done[j]);
                }
                if x == p.0 && y == p.1 {
                    assert(next[i as int] == p);
                }
                if on_path(next, x, y) {
                    let j = choose|j: int|
                        0 <= j < next.len() && (#[trigger] next[j]).0 == x && next[j].1 == y;
                    if j < i {
                        assert(done[j] == next[j]);
                    }
                }
            }
            assert forall|k: int| 0 <= k < before.len() implies #[trigger] fb.buffer@[k]
                == target[k] by {
                assert(before[k] == old(fb).painted(
                    |x: int, y: int| on_path(done, x, y),
                    word,
                )[k]);
            }
            assert(fb.buffer@ =~= target);
        }
        i += 1;
    }
    proof {
        assert(points@.take(i as int) == points@);
    }
}

/// Draw a primitive. A point is written if it lies within the frame. A line
/// is drawn point by point along Bresenham's line between its ends, both
/// ends among the points, each point written if it lies within the frame. A
/// triangle is not drawn but handed back with its corners sorted, to be
/// filled span by span.
pub fn draw(primitive: DrawPrimitive, fb: &mut FrameBuffer) -> (rest: Option<SortedTriangle>)
    requires
        old(fb).wf(),
        primitive matches DrawPrimitive::Line(ends, _) ==> within_limit(ends[0]) && within_limit(
            ends[1],
        ),
    ensures
        final(fb).wf(),
        final(fb).width == old(fb).width,
        final(fb).height == old(fb).height,
        match primitive {
            DrawPrimitive::ColoredPoint(p, c) => rest.is_none() && final(fb).buffer@ == old(
                fb,
            ).painted(|x: int, y: int| x == p.0 && y == p.1, c.packed() as u32),
            DrawPrimitive::Line(ends, c) => rest.is_none() && final(fb).buffer@ == old(
                fb,
            ).painted(
                |x: int, y: int| on_path(bresenham_line(ends[0], ends[1]), x, y),
                c.packed() as u32,
            ) && on_path(bresenham_line(ends[0], ends[1]), ends[0].0 as int, ends[0].1 as int)
                && on_path(bresenham_line(ends[0], ends[1]), ends[1].0 as int, ends[1].1 as int),
            DrawPrimitive::ColoredTriangle(vertices, c) => final(fb).buffer@ == old(fb).buffer@
                && rest == Some(
                SortedTriangle {
                    vertices: sorted_by_y(vertices),
                    shape: shape_of(sorted_by_y(vertices)),
                    color: c,
                },
            ),
        },
{
    match primitive {
        DrawPrimitive::Line(ends, color) => {
            let points = bresenham(ends[0], ends[1]);
            draw_points(fb, &points, color);
            None
        },
        DrawPrimitive::ColoredPoint(p, c) => {
            fb.draw_point(p, c);
            None
        },
        DrawPrimitive::ColoredTriangle(vertices, color) => Some(sort_triangle(vertices, color)),
    }
}

} // verus!
