use vstd::prelude::*;
use vstd::std_specs::cmp::PartialEqSpecImpl;

verus! {

/// Radius, in pixels, of the circle that marks a control point.
pub const RADIUS: i32 = 4;

/// A position on the canvas. The marker tells a point that the user
/// placed from one that the curve construction generated.
#[derive(Clone, Copy, Debug)]
pub struct Point {
    pub x: i32,
    pub y: i32,
    pub ctrl: bool,
}

impl Point {
    pub fn new(x: i32, y: i32, ctrl: bool) -> (p: Self)
        ensures
            p == (Point { x, y, ctrl }),
    {
        Point { x, y, ctrl }
    }

    pub fn get_x(&self) -> (x: i32)
        ensures
            x == self.x,
    {
        self.x
    }

    pub fn get_y(&self) -> (y: i32)
        ensures
            y == self.y,
    {
        self.y
    }

    pub fn is_ctrl_point(&self) -> (ctrl: bool)
        ensures
            ctrl == self.ctrl,
    {
        self.ctrl
    }
}

impl PartialEq for Point {
    /// Two points are equal when their coordinates are, whatever their markers.
    fn eq(&self, other: &Point) -> (r: bool) {
        self.x == other.x && self.y == other.y
    }
}

impl PartialEqSpecImpl for Point {
    open spec fn obeys_eq_spec() -> bool {
        true
    }

    open spec fn eq_spec(&self, other: &Point) -> bool {
        self.x == other.x && self.y == other.y
    }
}

impl Eq for Point {}

/// The segment from `a` to `b`.
#[derive(Clone, Copy, Debug, PartialEq, Eq)]
pub struct Line {
    pub a: Point,
    pub b: Point,
}

impl Line {
    pub fn new(a: Point, b: Point) -> (l: Self)
        ensures
            l == (Line { a, b }),
    {
        Line { a, b }
    }

    pub fn get_a(&self) -> (a: &Point)
        ensures
            *a == self.a,
    {
        &self.a
    }

    pub fn get_b(&self) -> (b: &Point)
        ensures
            *b == self.b,
    {
        &self.b
    }
}

/// The outline of a circle, drawn around a control point to mark it.
#[derive(Clone, Copy, Debug, PartialEq, Eq)]
pub struct Circle {
    pub center: Point,
    pub radius: i32,
}

impl Circle {
    pub fn new(center: Point, radius: i32) -> (c: Self)
        ensures
            c == (Circle { center, radius }),
    {
        Circle { center, radius }
    }

    /// The circle that marks `center` as a control point.
    pub fn marker(center: Point) -> (c: Self)
        ensures
            c == (Circle { center, radius: RADIUS }),
    {
        Circle { center, radius: RADIUS }
    }

    pub fn get_center(&self) -> (center: &Point)
        ensures
            *center == self.center,
    {
        &self.center
    }

    pub fn get_radius(&self) -> (radius: i32)
        ensures
            radius == self.radius,
    {
        self.radius
    }
}

} // verus!
