use crate::drawing::{Circle, Line, Point, RADIUS};
use crate::raster::outline_of;
use vstd::prelude::*;

verus! {

/// The colors that the interface draws in.
#[derive(Clone, Copy, Debug, PartialEq, Eq, Structural)]
pub enum Color {
    /// The empty canvas.
    Background,
    /// The control points.
    Ink,
    /// The circles that mark the control points, and what is drawn after them.
    Marker,
}

impl Color {
    /// The red, green, blue and alpha parts of the color.
    pub open spec fn parts(self) -> (u8, u8, u8, u8) {
        match self {
            Color::Background => (0, 0, 0, 255),
            Color::Ink => (255, 255, 255, 255),
            Color::Marker => (0, 171, 129, 255),
        }
    }

    /// The red, green, blue and alpha parts of the color.
    pub fn rgba(&self) -> (c: (u8, u8, u8, u8))
        ensures
            c == self.parts(),
    {
        match self {
            Color::Background => (0, 0, 0, 255),
            Color::Ink => (255, 255, 255, 255),
            Color::Marker => (0, 171, 129, 255),
        }
    }
}

/// One request to the renderer.
#[derive(Clone, Copy, Debug, PartialEq, Eq)]
pub enum DrawOp {
    /// Draw in this color from now on.
    SetColor(Color),
    /// Fill the canvas with the current color.
    Clear,
    /// Draw one pixel in the current color.
    DrawPoint(Point),
    /// Draw a segment in the current color.
    DrawLine(Line),
    /// Show what has been drawn.
    Present,
}

/// The requests that empty the canvas.
pub open spec fn clear_ops() -> Seq<DrawOp> {
    seq![DrawOp::SetColor(Color::Background), DrawOp::Clear]
}

/// One pixel for each point of `s`, in order.
pub open spec fn dots(s: Seq<Point>) -> Seq<DrawOp> {
    s.map_values(|p: Point| DrawOp::DrawPoint(p))
}

/// The requests that draw the outline of `c` in the marker color.
pub open spec fn marker_ops(c: Circle) -> Seq<DrawOp> {
    seq![DrawOp::SetColor(Color::Marker)] + dots(outline_of(c))
}

/// The requests that mark each point of `s`, in order.
pub open spec fn markers(s: Seq<Point>) -> Seq<DrawOp>
    decreases s.len(),
{
    if s.len() == 0 {
        Seq::empty()
    } else {
        markers(s.drop_last()) + marker_ops(Circle { center: s.last(), radius: RADIUS })
    }
}

/// One segment from each point of `s` to the next, in order. Fewer than two
/// points give no segment.
pub open spec fn segments(s: Seq<Point>) -> Seq<DrawOp> {
    Seq::new(
        if s.len() >= 1 {
            (s.len() - 1) as nat
        } else {
            0
        },
        |i: int| DrawOp::DrawLine(Line { a: s[i], b: s[i + 1] }),
    )
}

/// The segments of `polyline`, where there is one.
pub open spec fn track(polyline: Option<Seq<Point>>) -> Seq<DrawOp> {
    match polyline {
        Some(s) => segments(s),
        None => Seq::empty(),
    }
}

/// The requests that show the control points `points`, each with its marker,
/// and over them the segments of `polyline`, where there is one.
pub open spec fn frame(points: Seq<Point>, polyline: Option<Seq<Point>>) -> Seq<DrawOp> {
    seq![DrawOp::SetColor(Color::Ink)] + dots(points) + markers(points) + track(polyline) + seq![
        DrawOp::Present,
    ]
}

fn put_dots(ops: &mut Vec<DrawOp>, points: &Vec<Point>)
    ensures
        final(ops)@ == old(ops)@ + dots(points@),
{
    let mut i: usize = 0;
    while i < points.len()
        invariant
            i <= points.len(),
            ops@ == old(ops)@ + dots(points@.take(i as int)),
        decreases points.len() - i,
    {
        ops.push(DrawOp::DrawPoint(points[i]));
        proof {
            assert(points@.take(i + 1) == points@.take(i as int).push(points@[i as int]));
        }
        i += 1;
    }
    proof {
        assert(points@.take(points.len() as int) == points@);
    }
}

fn put_marker(ops: &mut Vec<DrawOp>, c: &Circle)
    ensures
        final(ops)@ == old(ops)@ + marker_ops(*c),
{
    ops.push(DrawOp::SetColor(Color::Marker));
    let pixels = c.outline();
    put_dots(ops, &pixels);
    proof {
        assert(ops@ == old(ops)@ + (seq![DrawOp::SetColor(Color::Marker)] + dots(pixels@)));
    }
}

fn put_markers(ops: &mut Vec<DrawOp>, points: &Vec<Point>)
    ensures
        final(ops)@ == old(ops)@ + markers(points@),
{
    let mut i: usize = 0;
    while i < points.len()
        invariant
            i <= points.len(),
            ops@ == old(ops)@ + markers(points@.take(i as int)),
        decreases points.len() - i,
    {
        let c = Circle::marker(points[i]);
        put_marker(ops, &c);
        proof {
            let grown = points@.take(i + 1);
            assert(grown.drop_last() == points@.take(i as int));
            assert(grown.last() == points@[i as int]);
            assert(ops@ == old(ops)@ + markers(grown));
        }
        i += 1;
    }
    proof {
        assert(points@.take(points.len() as int) == points@);
    }
}

fn put_segments(ops: &mut Vec<DrawOp>, polyline: &Vec<Point>)
    ensures
        final(ops)@ == old(ops)@ + segments(polyline@),
{
    let n = polyline.len();
    if n < 2 {
        proof {
            assert(ops@ == old(ops)@ + segments(polyline@));
        }
        return ;
    }
    let mut i: usize = 0;
    while i < n - 1
        invariant
            n == polyline.len(),
            n >= 2,
            i <= n - 1,
            ops@.len() == old(ops)@.len() + i,
            forall|j: int| 0 <= j < old(ops)@.len() ==> ops@[j] == old(ops)@[j],
            forall|j: int| 0 <= j < i ==> ops@[old(ops)@.len() + j] == segments(polyline@)[j],
        decreases n - i,
    {
        ops.push(DrawOp::DrawLine(Line::new(polyline[i], polyline[i + 1])));
        i += 1;
    }
    proof {
        assert(ops@ == old(ops)@ + segments(polyline@));
    }
}

impl Circle {
    /// The requests that draw the outline in the marker color.
    pub fn draw(&self) -> (ops: Vec<DrawOp>)
        ensures
            ops@ == marker_ops(*self),
    {
        let mut ops: Vec<DrawOp> = Vec::new();
        put_marker(&mut ops, self);
        proof {
            assert(Seq::<DrawOp>::empty() + marker_ops(*self) == marker_ops(*self));
        }
        ops
    }
}

/// The requests that empty the canvas.
pub fn clear_canvas() -> (ops: Vec<DrawOp>)
    ensures
        ops@ == clear_ops(),
{
    let mut ops: Vec<DrawOp> = Vec::new();
    ops.push(DrawOp::SetColor(Color::Background));
    ops.push(DrawOp::Clear);
    proof {
        assert(ops@ == clear_ops());
    }
    ops
}

/// The requests that show the control points `points`, each with its marker,
/// and over them the segments of `polyline`, where there is one.
pub fn display(points: &Vec<Point>, polyline: Option<&Vec<Point>>) -> (ops: Vec<DrawOp>)
    ensures
        ops@ == frame(
            points@,
            match polyline {
                Some(p) => Some(p@),
                None => None,
            },
        ),
{
    let mut ops: Vec<DrawOp> = Vec::new();
    ops.push(DrawOp::SetColor(Color::Ink));
    put_dots(&mut ops, points);
    put_markers(&mut ops, points);
    match polyline {
        Some(p) => {
            put_segments(&mut ops, p);
        },
        None => {
            proof {
                assert(ops@ + Seq::<DrawOp>::empty() == ops@);
            }
        },
    }
    ops.push(DrawOp::Present);
    ops
}

} // verus!
