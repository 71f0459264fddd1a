use crate::drawing::Point;
use vstd::arithmetic::power2::{lemma2_to64, lemma_pow2_pos, lemma_pow2_unfold, pow2};
use vstd::prelude::*;

verus! {

/// A quarter of `v`, rounded toward zero.
pub open spec fn quarter(v: int) -> int {
    if v >= 0 {
        v / 4
    } else {
        -((-v) / 4)
    }
}

/// The coordinate one quarter of the way from `a` to `b`, rounded toward zero.
pub open spec fn blend(a: int, b: int) -> int {
    quarter(3 * a + b)
}

/// The generated point one quarter of the way from `a` to `b`.
pub open spec fn cut(a: Point, b: Point) -> Point {
    Point { x: blend(a.x as int, b.x as int) as i32, y: blend(a.y as int, b.y as int) as i32, ctrl: false }
}

/// One corner-cutting pass over `s`. A sequence of fewer than three points has
/// no corner to cut and stays as it is. Otherwise the two ends stay, and between
/// them each segment gives the points at one quarter and at three quarters of
/// its way, in that order.
pub open spec fn subdivided(s: Seq<Point>) -> Seq<Point> {
    if s.len() < 3 {
        s
    } else {
        Seq::new(
            2 * s.len(),
            |i: int|
                if i == 0 {
                    s[0]
                } else if i == 2 * s.len() - 1 {
                    s[s.len() - 1]
                } else if i % 2 == 1 {
                    cut(s[i / 2], s[i / 2 + 1])
                } else {
                    cut(s[i / 2], s[i / 2 - 1])
                },
        )
    }
}

/// The sequence `s` after `passes` corner-cutting passes.
pub open spec fn refined(s: Seq<Point>, passes: nat) -> Seq<Point>
    decreases passes,
{
    if passes == 0 {
        s
    } else {
        subdivided(refined(s, (passes - 1) as nat))
    }
}

/// Whether every point of `s` lies in the rectangle that spans from `left` to
/// `right` and from `top` to `bottom`, borders included.
pub open spec fn boxed(s: Seq<Point>, left: int, right: int, top: int, bottom: int) -> bool {
    forall|i: int| 0 <= i < s.len() ==> left <= (#[trigger] s[i]).x <= right && top <= s[i].y <= bottom
}

/// A blended coordinate lies between the two that it was blended from.
pub proof fn lemma_blend_between(a: int, b: int)
    ensures
        a <= b ==> a <= blend(a, b) <= b,
        b <= a ==> b <= blend(a, b) <= a,
{
}

/// The coordinates of a generated point are the blended coordinates
/// themselves: a blend of two coordinates is a coordinate.
pub proof fn lemma_cut_coordinates(a: Point, b: Point)
    ensures
        cut(a, b).x == blend(a.x as int, b.x as int),
        cut(a, b).y == blend(a.y as int, b.y as int),
{
    lemma_blend_between(a.x as int, b.x as int);
    lemma_blend_between(a.y as int, b.y as int);
}

fn blend_coord(a: i32, b: i32) -> (c: i32)
    ensures
        c == blend(a as int, b as int),
{
    proof {
        lemma_blend_between(a as int, b as int);
    }
    let sum: i64 = 3 * (a as i64) + (b as i64);
    (sum / 4) as i32
}

/// The point one quarter of the way from `a` to `b`, each coordinate rounded
/// toward zero. It is marked as generated.
pub fn cut_corner(a: &Point, b: &Point) -> (q: Point)
    ensures
        q == cut(*a, *b),
        q.x == blend(a.x as int, b.x as int),
        q.y == blend(a.y as int, b.y as int),
        !q.ctrl,
{
    proof {
        lemma_cut_coordinates(*a, *b);
    }
    Point::new(blend_coord(a.x, b.x), blend_coord(a.y, b.y), false)
}

/// One corner-cutting pass over `points`.
pub fn subdivide(points: &Vec<Point>) -> (out: Vec<Point>)
    ensures
        out@ == subdivided(points@),
        points.len() < 3 ==> out@ == points@,
        points.len() >= 3 ==> out.len() == 2 * (points.len() - 1) + 2,
        points.len() >= 1 ==> out@[0] == points@[0] && out@[out.len() - 1] == points@[points.len() - 1],
{
    let n = points.len();
    if n < 3 {
        return copy_of(points);
    }
    let mut out: Vec<Point> = Vec::new();
    out.push(points[0]);
    let mut i: usize = 0;
    while i < n - 1
        invariant
            n == points.len(),
            n >= 3,
            i <= n - 1,
            out.len() == 2 * i + 1,
            forall|j: int| 0 <= j < out.len() ==> out@[j] == subdivided(points@)[j],
        decreases n - i,
    {
        let q = cut_corner(&points[i], &points[i + 1]);
        let r = cut_corner(&points[i + 1], &points[i]);
        out.push(q);
        out.push(r);
        i += 1;
    }
    out.push(points[n - 1]);
    out
}

/// `passes` corner-cutting passes over `points`, one after the other.
pub fn refine(points: &Vec<Point>, passes: usize) -> (out: Vec<Point>)
    ensures
        out@ == refined(points@, passes as nat),
{
    let mut out = copy_of(points);
    let mut done: usize = 0;
    while done < passes
        invariant
            done <= passes,
            out@ == refined(points@, done as nat),
        decreases passes - done,
    {
        out = subdivide(&out);
        done += 1;
    }
    out
}

/// A copy of `points`.
pub(crate) fn copy_of(points: &Vec<Point>) -> (out: Vec<Point>)
    ensures
        out@ == points@,
{
    let mut out: Vec<Point> = Vec::new();
    let mut k: usize = 0;
    while k < points.len()
        invariant
            k <= points.len(),
            out@ == points@.take(k as int),
        decreases points.len() - k,
    {
        out.push(points[k]);
        k += 1;
    }
    out
}

/// Fewer than three points have no corner to cut: they stay as they are,
/// however many passes run over them.
pub proof fn lemma_refined_short(s: Seq<Point>, passes: nat)
    requires
        s.len() < 3,
    ensures
        refined(s, passes) == s,
    decreases passes,
{
    if passes > 0 {
        lemma_refined_short(s, (passes - 1) as nat);
    }
}

/// Every pass doubles the number of points of a sequence of three or more.
pub proof fn lemma_refined_len(s: Seq<Point>, passes: nat)
    requires
        s.len() >= 3,
    ensures
        refined(s, passes).len() == s.len() * pow2(passes),
    decreases passes,
{
    if passes == 0 {
        lemma2_to64();
    } else {
        lemma_refined_len(s, (passes - 1) as nat);
        lemma_pow2_unfold(passes);
        lemma_pow2_pos((passes - 1) as nat);
        let before = refined(s, (passes - 1) as nat);
        assert(before.len() >= 3) by (nonlinear_arith)
            requires
                before.len() == s.len() * pow2((passes - 1) as nat),
                s.len() >= 3,
                pow2((passes - 1) as nat) >= 1,
        ;
        assert(2 * (s.len() * pow2((passes - 1) as nat)) == s.len() * (2 * pow2((passes - 1) as nat)))
            by (nonlinear_arith);
    }
}

/// The first and the last point stay where they are, however many passes run.
pub proof fn lemma_refined_keeps_ends(s: Seq<Point>, passes: nat)
    requires
        s.len() >= 1,
    ensures
        refined(s, passes).len() >= 1,
        refined(s, passes).first() == s.first(),
        refined(s, passes).last() == s.last(),
    decreases passes,
{
    if passes > 0 {
        lemma_refined_keeps_ends(s, (passes - 1) as nat);
    }
}

/// A pass never leaves the rectangle that holds the points it started from.
pub proof fn lemma_subdivided_boxed(s: Seq<Point>, left: int, right: int, top: int, bottom: int)
    requires
        boxed(s, left, right, top, bottom),
    ensures
        boxed(subdivided(s), left, right, top, bottom),
{
    let t = subdivided(s);
    if s.len() >= 3 {
        assert forall|i: int| 0 <= i < t.len() implies left <= (#[trigger] t[i]).x <= right && top
            <= t[i].y <= bottom by {
            if i == 0 {
                assert(t[i] == s[0]);
            } else if i == 2 * s.len() - 1 {
                assert(t[i] == s[s.len() - 1]);
            } else {
                let a = s[i / 2];
                let b = if i % 2 == 1 {
                    s[i / 2 + 1]
                } else {
                    s[i / 2 - 1]
                };
                assert(t[i] == cut(a, b));
                lemma_blend_between(a.x as int, b.x as int);
                lemma_blend_between(a.y as int, b.y as int);
            }
        }
    }
}

/// However many passes run, every point of the curve lies in the rectangle
/// that holds the points it started from.
pub proof fn lemma_refined_boxed(s: Seq<Point>, passes: nat, left: int, right: int, top: int, bottom: int)
    requires
        boxed(s, left, right, top, bottom),
    ensures
        boxed(refined(s, passes), left, right, top, bottom),
    decreases passes,
{
    if passes > 0 {
        lemma_refined_boxed(s, (passes - 1) as nat, left, right, top, bottom);
        lemma_subdivided_boxed(refined(s, (passes - 1) as nat), left, right, top, bottom);
    }
}

} // verus!
