//! Points: on the caller's lattice, on a refined lattice, and in the plane of
//! mathematical integers that contracts speak about.

use vstd::prelude::*;

verus! {

/// A point with unbounded integer coordinates. It only exists in
/// specifications and proofs; it is the view of [`Point`] and [`FinePoint`].
pub struct MathPoint {
    pub x: int,
    pub y: int,
}

impl MathPoint {
    /// The same point expressed on a lattice `factor` times finer.
    pub open spec fn scaled(self, factor: int) -> MathPoint {
        MathPoint { x: self.x * factor, y: self.y * factor }
    }
}

/// A point on the caller's lattice.
#[derive(Clone, Copy, Debug, PartialEq, Eq, Structural)]
pub struct Point {
    pub x: i64,
    pub y: i64,
}

impl View for Point {
    type V = MathPoint;

    open spec fn view(&self) -> MathPoint {
        MathPoint { x: self.x as int, y: self.y as int }
    }
}

impl Point {
    /// The point `(x, y)`.
    pub fn new(x: i64, y: i64) -> (p: Point)
        ensures
            p.x == x,
            p.y == y,
    {
        Point { x, y }
    }
}

/// A point on a refined lattice: its coordinates are numerators over the
/// `scale` of the [`Polyline`] that holds it.
#[derive(Clone, Copy, Debug, PartialEq, Eq, Structural)]
pub struct FinePoint {
    pub x: i128,
    pub y: i128,
}

impl View for FinePoint {
    type V = MathPoint;

    open spec fn view(&self) -> MathPoint {
        MathPoint { x: self.x as int, y: self.y as int }
    }
}

/// An ordered run of vertices on the lattice refined by `scale`: vertex `k`
/// stands for the rational point `(points[k].x / scale, points[k].y / scale)`.
#[derive(Clone, Debug)]
pub struct Polyline {
    /// The common denominator of all coordinates; at least 1.
    pub scale: u64,
    /// The numerators, in drawing order.
    pub points: Vec<FinePoint>,
}

impl View for Polyline {
    type V = Seq<MathPoint>;

    /// The numerators as mathematical points, in drawing order.
    open spec fn view(&self) -> Seq<MathPoint> {
        self.points@.map_values(|p: FinePoint| p@)
    }
}

} // verus!
