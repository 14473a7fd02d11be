//! Sampling a quadratic Bézier curve into a polyline.
//!
//! The quadratic Bézier curve from `start` to `end` with control point
//! `control` is `P(t) = start·(1−t)² + control·2t(1−t) + end·t²` for `t` in
//! `[0, 1]`. Sampled at `t = i / n` and multiplied by `n²` every coordinate
//! is an integer: `start·(n−i)² + control·2i(n−i) + end·i²`. That numerator
//! is what this module computes; the denominator `n²` is the polyline's
//! `scale`.

use vstd::prelude::*;
use crate::error::GeometryError;
use crate::point::{FinePoint, MathPoint, Point, Polyline};

verus! {

/// One coordinate of the curve at parameter `i / n`, as a numerator over `n²`.
pub open spec fn blend(start: int, control: int, end: int, n: int, i: int) -> int {
    start * ((n - i) * (n - i)) + control * (2 * (i * (n - i))) + end * (i * i)
}

/// The curve at parameter `i / n`, on the lattice refined by `n²`.
pub open spec fn curve_point(
    start: MathPoint,
    control: MathPoint,
    end: MathPoint,
    n: int,
    i: int,
) -> MathPoint {
    MathPoint {
        x: blend(start.x, control.x, end.x, n, i),
        y: blend(start.y, control.y, end.y, n, i),
    }
}

/// The curve sampled at `i / n` for `i = 0, 1, ..., n`.
pub open spec fn curve(start: MathPoint, control: MathPoint, end: MathPoint, n: int) -> Seq<MathPoint> {
    Seq::new((n + 1) as nat, |i: int| curve_point(start, control, end, n, i))
}

/// What [`sample`] answers to a request.
pub open spec fn sampled(
    res: Result<Polyline, GeometryError>,
    start: MathPoint,
    control: MathPoint,
    end: MathPoint,
    steps: int,
) -> bool {
    if steps == 0 {
        res == Err::<Polyline, GeometryError>(GeometryError::InvalidResolution)
    } else {
        &&& res matches Ok(line)
        &&& line.scale == steps * steps
        &&& line@ == curve(start, control, end, steps)
    }
}

/// A sampled curve begins exactly at its start point and ends exactly at its
/// end point, and has one more vertex than it has segments.
pub proof fn lemma_curve_endpoints(start: MathPoint, control: MathPoint, end: MathPoint, n: int)
    requires
        n >= 1,
    ensures
        curve(start, control, end, n).len() == n + 1,
        curve(start, control, end, n).first() == start.scaled(n * n),
        curve(start, control, end, n).last() == end.scaled(n * n),
{
    lemma_blend_at_ends(start.x, control.x, end.x, n);
    lemma_blend_at_ends(start.y, control.y, end.y, n);
}

/// With an even number of segments the middle vertex is the curve at
/// `t = 1/2`, that is `start/4 + control/2 + end/4`: four times its numerator is
/// `n²·(start + 2·control + end)`.
pub proof fn lemma_curve_midpoint(start: MathPoint, control: MathPoint, end: MathPoint, n: int)
    requires
        n >= 1,
        n % 2 == 0,
    ensures
        4 * curve(start, control, end, n)[n / 2].x == (n * n) * (start.x + 2 * control.x + end.x),
        4 * curve(start, control, end, n)[n / 2].y == (n * n) * (start.y + 2 * control.y + end.y),
{
    lemma_blend_at_half(start.x, control.x, end.x, n / 2);
    lemma_blend_at_half(start.y, control.y, end.y, n / 2);
}

/// The three weights of a sample add up to `n²`, so a sample of three equal
/// coordinates is that coordinate again.
pub proof fn lemma_blend_constant(v: int, n: int, i: int)
    ensures
        blend(v, v, v, n, i) == v * (n * n),
{
    assert(v * ((n - i) * (n - i)) + v * (2 * (i * (n - i))) + v * (i * i) == v * (n * n))
        by (nonlinear_arith);
}

/// A sample lies between the least and the greatest of its three control
/// coordinates.
pub proof fn lemma_blend_bounds(start: int, control: int, end: int, n: int, i: int, lo: int, hi: int)
    requires
        0 <= i <= n,
        lo <= start <= hi,
        lo <= control <= hi,
        lo <= end <= hi,
    ensures
        lo * (n * n) <= blend(start, control, end, n, i) <= hi * (n * n),
{
    let w0: int = (n - i) * (n - i);
    let w1: int = 2 * (i * (n - i));
    let w2: int = i * i;
    assert(w0 >= 0 && w1 >= 0 && w2 >= 0 && w0 + w1 + w2 == n * n) by (nonlinear_arith)
        requires
            0 <= i <= n,
            w0 == (n - i) * (n - i),
            w1 == 2 * (i * (n - i)),
            w2 == i * i,
    ;
    lemma_weighted(start, w0, lo, hi);
    lemma_weighted(control, w1, lo, hi);
    lemma_weighted(end, w2, lo, hi);
    assert(lo * w0 + lo * w1 + lo * w2 == lo * (n * n) && hi * w0 + hi * w1 + hi * w2 == hi * (n
        * n)) by (nonlinear_arith)
        requires
            w0 + w1 + w2 == n * n,
    ;
}

proof fn lemma_weighted(v: int, w: int, lo: int, hi: int)
    by (nonlinear_arith)
    requires
        w >= 0,
        lo <= v <= hi,
    ensures
        lo * w <= v * w <= hi * w,
{
}

proof fn lemma_blend_at_ends(start: int, control: int, end: int, n: int)
    ensures
        blend(start, control, end, n, 0) == start * (n * n),
        blend(start, control, end, n, n) == end * (n * n),
{
    assert(start * ((n - 0) * (n - 0)) + control * (2 * (0 * (n - 0))) + end * (0 * 0) == start * (n
        * n)) by (nonlinear_arith);
    assert(start * ((n - n) * (n - n)) + control * (2 * (n * (n - n))) + end * (n * n) == end * (n
        * n)) by (nonlinear_arith);
}

proof fn lemma_blend_at_half(start: int, control: int, end: int, h: int)
    ensures
        4 * blend(start, control, end, 2 * h, h) == ((2 * h) * (2 * h)) * (start + 2 * control
            + end),
{
    assert(4 * (start * ((2 * h - h) * (2 * h - h)) + control * (2 * (h * (2 * h - h))) + end * (h
        * h)) == ((2 * h) * (2 * h)) * (start + 2 * control + end)) by (nonlinear_arith);
}

/// One coordinate of the curve at parameter `i / steps`.
fn blend_coordinate(start: i64, control: i64, end: i64, steps: u16, i: u16) -> (v: i128)
    requires
        i <= steps,
    ensures
        v == blend(start as int, control as int, end as int, steps as int, i as int),
{
    let back: u64 = (steps - i) as u64;
    let forth: u64 = i as u64;
    assert(back * back <= 0xffff * 0xffff && forth * back <= 0xffff * 0xffff && forth * forth
        <= 0xffff * 0xffff) by (nonlinear_arith)
        requires
            back <= 0xffff,
            forth <= 0xffff,
    ;
    let w0: u64 = back * back;
    let w1: u64 = 2 * (forth * back);
    let w2: u64 = forth * forth;
    proof {
        lemma_weighted(start as int, w0 as int, -0x8000_0000_0000_0000, 0x8000_0000_0000_0000);
        lemma_weighted(control as int, w1 as int, -0x8000_0000_0000_0000, 0x8000_0000_0000_0000);
        lemma_weighted(end as int, w2 as int, -0x8000_0000_0000_0000, 0x8000_0000_0000_0000);
    }
    (start as i128) * (w0 as i128) + (control as i128) * (w1 as i128) + (end as i128) * (w2 as i128)
}

/// Samples the quadratic Bézier curve from `start` to `end` with control point
/// `control` into `steps` segments.
///
/// The answer has `steps + 1` vertices on the lattice refined by
/// `steps * steps`; vertex `i` is the curve at `t = i / steps`. The first
/// vertex is exactly `start` and the last exactly `end`. Zero segments are
/// refused with [`GeometryError::InvalidResolution`], and nothing else is.
pub fn sample(start: Point, control: Point, end: Point, steps: u16) -> (res: Result<
    Polyline,
    GeometryError,
>)
    ensures
        sampled(res, start@, control@, end@, steps as int),
        steps == 0 <==> res is Err,
        res matches Ok(line) ==> {
            &&& line@.len() == steps + 1
            &&& line@.first() == start@.scaled(steps * steps)
            &&& line@.last() == end@.scaled(steps * steps)
            &&& steps % 2 == 0 ==> {
                &&& 4 * line@[steps as int / 2].x == (steps * steps) * (start.x + 2 * control.x + end.x)
                &&& 4 * line@[steps as int / 2].y == (steps * steps) * (start.y + 2 * control.y + end.y)
            }
            &&& forall|i: int|
                0 <= i <= steps ==> #[trigger] line@[i] == curve_point(
                    start@,
                    control@,
                    end@,
                    steps as int,
                    i,
                )
        },
{
    if steps == 0 {
        return Err(GeometryError::InvalidResolution);
    }
    let mut points: Vec<FinePoint> = Vec::with_capacity(steps as usize + 1);
    let mut i: u32 = 0;
    while i <= steps as u32
        invariant
            0 <= i <= steps + 1,
            points@.len() == i,
            forall|k: int|
                0 <= k < i ==> (#[trigger] points@[k])@ == curve_point(
                    start@,
                    control@,
                    end@,
                    steps as int,
                    k,
                ),
        decreases steps + 1 - i,
    {
        let x = blend_coordinate(start.x, control.x, end.x, steps, i as u16);
        let y = blend_coordinate(start.y, control.y, end.y, steps, i as u16);
        points.push(FinePoint { x, y });
        i += 1;
    }
    assert((steps as u64) * (steps as u64) <= 0xffff * 0xffff) by (nonlinear_arith)
        requires
            steps <= 0xffff,
    ;
    let line = Polyline { scale: (steps as u64) * (steps as u64), points };
    proof {
        assert(line@ =~= curve(start@, control@, end@, steps as int));
        lemma_curve_endpoints(start@, control@, end@, steps as int);
        if steps % 2 == 0 {
            lemma_curve_midpoint(start@, control@, end@, steps as int);
        }
    }
    Ok(line)
}

} // verus!
