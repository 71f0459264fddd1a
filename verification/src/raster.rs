use crate::drawing::{Circle, Point};
use vstd::prelude::*;

verus! {

/// Largest coordinate that the renderer accepts.
pub const COORD_MAX: i32 = 1073741823;

/// Smallest coordinate that the renderer accepts.
pub const COORD_MIN: i32 = -1073741824;

/// The value of `v` brought into the range of coordinates that the renderer accepts.
pub open spec fn clamped(v: int) -> int {
    if v > COORD_MAX {
        COORD_MAX as int
    } else if v < COORD_MIN {
        COORD_MIN as int
    } else {
        v
    }
}

/// The offsets that the midpoint walk visits in the first octant, from the
/// offset (`x`, `y`) and the decision value `d` on. Each step moves one pixel
/// up; where the decision value is positive it also moves one pixel inward.
/// The walk ends once it has crossed the diagonal.
pub open spec fn walk(x: int, y: int, d: int) -> Seq<(int, int)>
    decreases x - y + 2,
{
    if y > x {
        Seq::empty()
    } else if d <= 0 {
        seq![(x, y)] + walk(x, y + 1, d + (2 * (y + 1) + 1))
    } else {
        seq![(x, y)] + walk(x - 1, y + 1, d - (2 * ((y + 1) - (x - 1)) + 1))
    }
}

/// The offset `o` under the `k`-th of the eight reflections that map a circle
/// onto itself, `k` counted from 0.
pub open spec fn mirrored(o: (int, int), k: int) -> (int, int) {
    let (x, y) = o;
    if k == 0 {
        (x, y)
    } else if k == 1 {
        (-x, y)
    } else if k == 2 {
        (x, -y)
    } else if k == 3 {
        (-x, -y)
    } else if k == 4 {
        (y, x)
    } else if k == 5 {
        (-y, x)
    } else if k == 6 {
        (y, -x)
    } else {
        (-y, -x)
    }
}

/// Every step of `steps` under its eight reflections, step by step.
pub open spec fn reflected(steps: Seq<(int, int)>) -> Seq<(int, int)> {
    Seq::new(8 * steps.len(), |i: int| mirrored(steps[i / 8], i % 8))
}

/// The pixel offsets, from the center, of the outline of a circle of the
/// given radius. A negative radius gives none.
pub open spec fn circle_offsets(radius: int) -> Seq<(int, int)> {
    reflected(walk(radius, 0, 1 - radius))
}

/// The pixel at the offset `o` from `center`, each coordinate clamped to the
/// range that the renderer accepts.
pub open spec fn shifted(center: Point, o: (int, int)) -> Point {
    Point { x: clamped(center.x + o.0) as i32, y: clamped(center.y + o.1) as i32, ctrl: false }
}

/// The pixels of the outline of `c`, in the order in which they are drawn.
pub open spec fn outline_of(c: Circle) -> Seq<Point> {
    circle_offsets(c.radius as int).map_values(|o: (int, int)| shifted(c.center, o))
}

/// Whether `offsets` holds, with each of its offsets, that offset under all
/// eight reflections.
pub open spec fn symmetric(offsets: Seq<(int, int)>) -> bool {
    forall|i: int, k: int|
        0 <= i < offsets.len() && 0 <= k < 8 ==> offsets.contains(#[trigger] mirrored(offsets[i], k))
}

/// The square of `v`.
pub open spec fn square(v: int) -> int {
    v * v
}

/// Whether the offset `o` lies within one pixel of the circle of the given
/// radius around the origin.
pub open spec fn near_radius(o: (int, int), radius: int) -> bool {
    let distance = square(o.0) + square(o.1);
    &&& distance <= square(radius + 1)
    &&& radius >= 1 ==> square(radius - 1) <= distance
}

/// The outline of a circle is symmetric: with an offset it holds the offset
/// under each of the eight reflections.
pub proof fn lemma_offsets_symmetric(radius: int)
    ensures
        symmetric(circle_offsets(radius)),
{
    let steps = walk(radius, 0, 1 - radius);
    let offsets = circle_offsets(radius);
    assert forall|i: int, k: int| 0 <= i < offsets.len() && 0 <= k < 8 implies offsets.contains(
        #[trigger] mirrored(offsets[i], k),
    ) by {
        let q = i / 8;
        let step = steps[q];
        assert(offsets[i] == mirrored(step, i % 8));
        assert(offsets[8 * q] == mirrored(step, 0));
        assert(offsets[8 * q + 1] == mirrored(step, 1));
        assert(offsets[8 * q + 2] == mirrored(step, 2));
        assert(offsets[8 * q + 3] == mirrored(step, 3));
        assert(offsets[8 * q + 4] == mirrored(step, 4));
        assert(offsets[8 * q + 5] == mirrored(step, 5));
        assert(offsets[8 * q + 6] == mirrored(step, 6));
        assert(offsets[8 * q + 7] == mirrored(step, 7));
    }
}

/// A reflection keeps the distance from the origin.
proof fn lemma_mirrored_near(o: (int, int), k: int, radius: int)
    requires
        near_radius(o, radius),
    ensures
        near_radius(mirrored(o, k), radius),
{
    assert(square(-o.0) == square(o.0)) by (nonlinear_arith);
    assert(square(-o.1) == square(o.1)) by (nonlinear_arith);
}

/// Up to the radius 10, every pixel of the outline lies within one pixel of
/// the circle. From the radius 11 on, the walk cuts the corner near the
/// diagonal and this no longer holds.
pub proof fn lemma_offsets_near_radius(radius: int)
    requires
        radius <= 10,
    ensures
        forall|i: int|
            0 <= i < circle_offsets(radius).len() ==> near_radius(#[trigger] circle_offsets(radius)[i], radius),
{
    let steps = walk(radius, 0, 1 - radius);
    reveal_with_fuel(walk, 9);
    assert(square(0) == 0 && square(1) == 1 && square(2) == 4 && square(3) == 9 && square(4) == 16
        && square(5) == 25 && square(6) == 36 && square(7) == 49 && square(8) == 64 && square(9)
        == 81 && square(10) == 100 && square(11) == 121);
    assert forall|q: int| 0 <= q < steps.len() implies near_radius(#[trigger] steps[q], radius) by {
        if radius == 0 {
            assert(steps =~= seq![(0, 0)]);
        } else if radius == 1 {
            assert(steps =~= seq![(1, 0), (1, 1)]);
        } else if radius == 2 {
            assert(steps =~= seq![(2, 0), (2, 1)]);
        } else if radius == 3 {
            assert(steps =~= seq![(3, 0), (3, 1), (2, 2)]);
        } else if radius == 4 {
            assert(steps =~= seq![(4, 0), (4, 1), (4, 2), (3, 3)]);
        } else if radius == 5 {
            assert(steps =~= seq![(5, 0), (5, 1), (5, 2), (4, 3)]);
        } else if radius == 6 {
            assert(steps =~= seq![(6, 0), (6, 1), (6, 2), (5, 3), (4, 4)]);
        } else if radius == 7 {
            assert(steps =~= seq![(7, 0), (7, 1), (7, 2), (6, 3), (5, 4)]);
        } else if radius == 8 {
            assert(steps =~= seq![(8, 0), (8, 1), (8, 2), (7, 3), (6, 4), (5, 5)]);
        } else if radius == 9 {
            assert(steps =~= seq![(9, 0), (9, 1), (9, 2), (9, 3), (8, 4), (7, 5), (6, 6)]);
        } else if radius == 10 {
            assert(steps =~= seq![(10, 0), (10, 1), (10, 2), (10, 3), (9, 4), (8, 5), (7, 6)]);
        }
    }
    assert forall|i: int| 0 <= i < circle_offsets(radius).len() implies near_radius(
        #[trigger] circle_offsets(radius)[i],
        radius,
    ) by {
        assert(near_radius(steps[i / 8], radius));
        lemma_mirrored_near(steps[i / 8], i % 8, radius);
    }
}

fn clamp_coord(v: i64) -> (r: i32)
    ensures
        r == clamped(v as int),
{
    if v > COORD_MAX as i64 {
        COORD_MAX
    } else if v < COORD_MIN as i64 {
        COORD_MIN
    } else {
        v as i32
    }
}

fn pixel_at(center: &Point, dx: i64, dy: i64) -> (p: Point)
    requires
        -0x8000_0000 <= dx <= 0x8000_0000,
        -0x8000_0000 <= dy <= 0x8000_0000,
    ensures
        p == shifted(*center, (dx as int, dy as int)),
{
    Point::new(clamp_coord(center.x as i64 + dx), clamp_coord(center.y as i64 + dy), false)
}

impl Circle {
    /// The pixels of the outline, by the midpoint method: one octant is walked
    /// and each of its offsets is reflected into the other seven.
    pub fn outline(&self) -> (out: Vec<Point>)
        ensures
            out@ == outline_of(*self),
    {
        let radius: i64 = self.radius as i64;
        let mut out: Vec<Point> = Vec::new();
        let mut x: i64 = radius;
        let mut y: i64 = 0;
        // The decision value can reach about twice the square of the radius.
        let mut d: i128 = 1 - (radius as i128);
        let ghost whole = walk(radius as int, 0, 1 - radius);
        let ghost mut done: Seq<(int, int)> = Seq::empty();
        assert(done + walk(x as int, y as int, d as int) == whole);
        while y <= x
            invariant
                radius == self.radius,
                0 <= y,
                x <= radius,
                -0x1_0000_0000 <= d <= 0x2_0000_0000 * (y + 1),
                done + walk(x as int, y as int, d as int) == whole,
                out.len() == 8 * done.len(),
                forall|i: int|
                    0 <= i < out.len() ==> out@[i] == shifted(self.center, mirrored(done[i / 8], i % 8)),
            decreases x - y + 2,
        {
            let ghost before = out@;
            out.push(pixel_at(&self.center, x, y));
            out.push(pixel_at(&self.center, -x, y));
            out.push(pixel_at(&self.center, x, -y));
            out.push(pixel_at(&self.center, -x, -y));
            out.push(pixel_at(&self.center, y, x));
            out.push(pixel_at(&self.center, -y, x));
            out.push(pixel_at(&self.center, y, -x));
            out.push(pixel_at(&self.center, -y, -x));
            proof {
                let step = (x as int, y as int);
                let rest = if d <= 0 {
                    walk(x as int, y + 1, d + (2 * (y + 1) + 1))
                } else {
                    walk(x - 1, y + 1, d - (2 * ((y + 1) - (x - 1)) + 1))
                };
                assert(walk(x as int, y as int, d as int) == seq![step] + rest);
                assert(done.push(step) + rest == done + (seq![step] + rest));
                let grown = done.push(step);
                assert forall|i: int| 0 <= i < out.len() implies out@[i] == shifted(
                    self.center,
                    mirrored(grown[i / 8], i % 8),
                ) by {
                    if i < before.len() {
                        assert(out@[i] == before[i]);
                    }
                }
                done = grown;
            }
            y += 1;
            if d <= 0 {
                d += 2 * (y as i128) + 1;
            } else {
                x -= 1;
                d -= 2 * ((y - x) as i128) + 1;
            }
        }
        proof {
            assert(walk(x as int, y as int, d as int) == Seq::<(int, int)>::empty());
            assert(done + Seq::<(int, int)>::empty() == done);
            assert(out@ == outline_of(*self));
        }
        out
    }
}

} // verus!
