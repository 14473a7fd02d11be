//! Rectangles, their corners, and the points where a rounded corner meets
//! the straight edges.
//!
//! Coordinates grow to the right and downwards, so "top" is the side with
//! the smaller `y`. Corners are always visited in the order top-left,
//! top-right, bottom-right, bottom-left.

use vstd::prelude::*;
use crate::error::GeometryError;
use crate::point::{MathPoint, Point};

verus! {

/// One of the four corners of a rectangle.
#[derive(Clone, Copy, Debug, PartialEq, Eq, Structural)]
pub enum Corner {
    TopLeft,
    TopRight,
    BottomRight,
    BottomLeft,
}

impl Corner {
    /// The corner visited at place `place` (0 to 3) of the traversal.
    pub open spec fn at(place: int) -> Corner {
        if place == 0 {
            Corner::TopLeft
        } else if place == 1 {
            Corner::TopRight
        } else if place == 2 {
            Corner::BottomRight
        } else {
            Corner::BottomLeft
        }
    }

    /// The place (0 to 3) of this corner in the traversal.
    pub open spec fn place(self) -> int {
        match self {
            Corner::TopLeft => 0,
            Corner::TopRight => 1,
            Corner::BottomRight => 2,
            Corner::BottomLeft => 3,
        }
    }

    /// The corner visited after this one; after the last comes the first.
    pub open spec fn next(self) -> Corner {
        Corner::at((self.place() + 1) % 4)
    }
}

/// An axis-aligned rectangle, given by its top-left vertex and its extent.
/// The unsigned extent makes every value a proper rectangle; one of width or
/// height zero is a segment or a point.
#[derive(Clone, Copy, Debug, PartialEq, Eq, Structural)]
pub struct Rectangle {
    pub min_x: i32,
    pub min_y: i32,
    pub width: u32,
    pub height: u32,
}

impl Rectangle {
    /// The rectangle with top-left vertex `(min_x, min_y)`.
    pub fn new(min_x: i32, min_y: i32, width: u32, height: u32) -> (r: Rectangle)
        ensures
            r.min_x == min_x,
            r.min_y == min_y,
            r.width == width,
            r.height == height,
    {
        Rectangle { min_x, min_y, width, height }
    }

    /// The greatest `x` of the rectangle.
    pub open spec fn max_x(self) -> int {
        self.min_x + self.width
    }

    /// The greatest `y` of the rectangle.
    pub open spec fn max_y(self) -> int {
        self.min_y + self.height
    }

    /// The true vertex of the rectangle at `corner`.
    pub open spec fn spec_vertex(self, corner: Corner) -> MathPoint {
        match corner {
            Corner::TopLeft => MathPoint { x: self.min_x as int, y: self.min_y as int },
            Corner::TopRight => MathPoint { x: self.max_x(), y: self.min_y as int },
            Corner::BottomRight => MathPoint { x: self.max_x(), y: self.max_y() },
            Corner::BottomLeft => MathPoint { x: self.min_x as int, y: self.max_y() },
        }
    }

    /// Where the rounding of `corner` begins: the point `radius` away from
    /// the vertex on the edge by which the traversal arrives.
    pub open spec fn spec_cut_in(self, corner: Corner, radius: int) -> MathPoint {
        match corner {
            Corner::TopLeft => MathPoint { x: self.min_x as int, y: self.min_y + radius },
            Corner::TopRight => MathPoint { x: self.max_x() - radius, y: self.min_y as int },
            Corner::BottomRight => MathPoint { x: self.max_x(), y: self.max_y() - radius },
            Corner::BottomLeft => MathPoint { x: self.min_x + radius, y: self.max_y() },
        }
    }

    /// Where the rounding of `corner` ends: the point `radius` away from the
    /// vertex on the edge by which the traversal leaves.
    pub open spec fn spec_cut_out(self, corner: Corner, radius: int) -> MathPoint {
        match corner {
            Corner::TopLeft => MathPoint { x: self.min_x + radius, y: self.min_y as int },
            Corner::TopRight => MathPoint { x: self.max_x(), y: self.min_y + radius },
            Corner::BottomRight => MathPoint { x: self.max_x() - radius, y: self.max_y() },
            Corner::BottomLeft => MathPoint { x: self.min_x as int, y: self.max_y() - radius },
        }
    }

    /// Whether rounding with `radius` leaves the four corners apart: the
    /// radius is at most half of the shorter side.
    pub open spec fn admits_radius(self, radius: int) -> bool {
        0 <= radius && 2 * radius <= self.width && 2 * radius <= self.height
    }

    /// The true vertex of the rectangle at `corner`.
    pub fn vertex(&self, corner: Corner) -> (p: Point)
        ensures
            p@ == self.spec_vertex(corner),
    {
        let left: i64 = self.min_x as i64;
        let top: i64 = self.min_y as i64;
        let right: i64 = left + self.width as i64;
        let bottom: i64 = top + self.height as i64;
        match corner {
            Corner::TopLeft => Point { x: left, y: top },
            Corner::TopRight => Point { x: right, y: top },
            Corner::BottomRight => Point { x: right, y: bottom },
            Corner::BottomLeft => Point { x: left, y: bottom },
        }
    }

    /// The two points where the rounding of `corner` begins and ends, in
    /// the order of the traversal. Each lies on an edge line of the
    /// rectangle, `radius` away from the vertex.
    ///
    /// A radius of more than half the shorter side is accepted: the cut
    /// points of neighbouring corners then pass each other, and an outline
    /// built from them overlaps itself. [`Rectangle::validate_radius`] tells
    /// beforehand.
    pub fn cut_points(&self, corner: Corner, radius: u32) -> (cut: (Point, Point))
        ensures
            cut.0@ == self.spec_cut_in(corner, radius as int),
            cut.1@ == self.spec_cut_out(corner, radius as int),
    {
        let left: i64 = self.min_x as i64;
        let top: i64 = self.min_y as i64;
        let right: i64 = left + self.width as i64;
        let bottom: i64 = top + self.height as i64;
        let r: i64 = radius as i64;
        match corner {
            Corner::TopLeft => (Point { x: left, y: top + r }, Point { x: left + r, y: top }),
            Corner::TopRight => (Point { x: right - r, y: top }, Point { x: right, y: top + r }),
            Corner::BottomRight => (
                Point { x: right, y: bottom - r },
                Point { x: right - r, y: bottom },
            ),
            Corner::BottomLeft => (
                Point { x: left + r, y: bottom },
                Point { x: left, y: bottom - r },
            ),
        }
    }

    /// Accepts `radius` if it is at most half of the shorter side, and
    /// refuses it with [`GeometryError::InvalidRadius`] otherwise.
    pub fn validate_radius(&self, radius: u32) -> (res: Result<(), GeometryError>)
        ensures
            self.admits_radius(radius as int) ==> res == Ok::<(), GeometryError>(()),
            !self.admits_radius(radius as int) ==> res == Err::<(), GeometryError>(
                GeometryError::InvalidRadius,
            ),
    {
        let twice: u64 = 2 * (radius as u64);
        if twice <= self.width as u64 && twice <= self.height as u64 {
            Ok(())
        } else {
            Err(GeometryError::InvalidRadius)
        }
    }
}

} // verus!
