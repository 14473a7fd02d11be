//! Assembling the outline of a rounded rectangle.
//!
//! Each corner is rounded by the quadratic Bézier curve that starts where
//! the rounding begins, ends where it ends, and has the rectangle's true
//! vertex as its control point. The outline is the four sampled arcs one
//! after the other, top-left first. The straight edges are not listed: the
//! last vertex of one arc and the first vertex of the next lie on the same
//! edge line of the rectangle, and whoever draws the polygon joins them.

use vstd::prelude::*;
use vstd::arithmetic::div_mod::{
    lemma_fundamental_div_mod_converse_div, lemma_fundamental_div_mod_converse_mod,
};
use crate::curve::{
    curve, curve_point, lemma_blend_bounds, lemma_blend_constant, lemma_curve_endpoints, sample,
};
use crate::error::GeometryError;
use crate::point::{MathPoint, Polyline};
use crate::rect::{Corner, Rectangle};
use crate::shape::{
    is_convex, lemma_outline_is_convex, lemma_outline_never_crosses, never_crosses,
};

verus! {

/// The number of segments per corner that hides the facets of an arc at
/// ordinary drawing sizes.
pub const DEFAULT_STEPS: u16 = 200;

/// A polyline read as a closed polygon: whoever draws it joins the last
/// vertex to the first.
pub type Outline = Polyline;

/// The sampled arc that rounds `corner` of `rect`, on the lattice refined by
/// `n * n`.
pub open spec fn arc_of(rect: Rectangle, corner: Corner, radius: int, n: int) -> Seq<MathPoint> {
    curve(
        rect.spec_cut_in(corner, radius),
        rect.spec_vertex(corner),
        rect.spec_cut_out(corner, radius),
        n,
    )
}

/// Vertex `i` of the arc that rounds `corner` of `rect`.
pub open spec fn arc_point(rect: Rectangle, corner: Corner, radius: int, n: int, i: int) -> MathPoint {
    curve_point(
        rect.spec_cut_in(corner, radius),
        rect.spec_vertex(corner),
        rect.spec_cut_out(corner, radius),
        n,
        i,
    )
}

/// The outline of `rect` rounded with `radius`, each corner sampled into `n`
/// segments: the four arcs in traversal order.
pub open spec fn outline(rect: Rectangle, radius: int, n: int) -> Seq<MathPoint> {
    arc_of(rect, Corner::TopLeft, radius, n) + arc_of(rect, Corner::TopRight, radius, n) + arc_of(
        rect,
        Corner::BottomRight,
        radius,
        n,
    ) + arc_of(rect, Corner::BottomLeft, radius, n)
}

/// What [`build`] answers to a request.
pub open spec fn built(
    res: Result<Polyline, GeometryError>,
    rect: Rectangle,
    radius: int,
    steps: int,
) -> bool {
    if steps == 0 {
        res == Err::<Polyline, GeometryError>(GeometryError::InvalidResolution)
    } else {
        &&& res matches Ok(line)
        &&& line.scale == steps * steps
        &&& line@ == outline(rect, radius, steps)
    }
}

/// The outline has `4·(n + 1)` vertices, and the vertex at place
/// `q·(n + 1) + i` is vertex `i` of the arc of the corner visited at place
/// `q`.
pub proof fn lemma_outline_vertex(rect: Rectangle, radius: int, n: int, q: int, i: int)
    requires
        n >= 0,
        0 <= q < 4,
        0 <= i <= n,
    ensures
        outline(rect, radius, n).len() == 4 * (n + 1),
        0 <= q * (n + 1) + i < 4 * (n + 1),
        outline(rect, radius, n)[q * (n + 1) + i] == arc_point(rect, Corner::at(q), radius, n, i),
{
    let m: int = n + 1;
    assert(q * m == if q == 0 {
        0
    } else if q == 1 {
        m
    } else if q == 2 {
        2 * m
    } else {
        3 * m
    }) by (nonlinear_arith)
        requires
            0 <= q < 4,
    ;
}

/// Vertex `k` of the outline is vertex `k mod (n + 1)` of the arc of the
/// corner visited at place `k div (n + 1)`.
pub proof fn lemma_outline_at(rect: Rectangle, radius: int, n: int, k: int)
    requires
        n >= 0,
        0 <= k < 4 * (n + 1),
    ensures
        outline(rect, radius, n).len() == 4 * (n + 1),
        0 <= k / (n + 1) < 4,
        0 <= k % (n + 1) <= n,
        outline(rect, radius, n)[k] == arc_point(
            rect,
            Corner::at(k / (n + 1)),
            radius,
            n,
            k % (n + 1),
        ),
{
    let m: int = n + 1;
    let q: int = if k < m {
        0
    } else if k < 2 * m {
        1
    } else if k < 3 * m {
        2
    } else {
        3
    };
    let i: int = if k < m {
        k
    } else if k < 2 * m {
        k - m
    } else if k < 3 * m {
        k - 2 * m
    } else {
        k - 3 * m
    };
    lemma_outline_vertex(rect, radius, n, q, i);
    lemma_fundamental_div_mod_converse_div(k, m, q, i);
    lemma_fundamental_div_mod_converse_mod(k, m, q, i);
}

/// With radius zero nothing is rounded: the arc of a corner is the
/// rectangle's true vertex at that corner, listed `n + 1` times.
pub proof fn lemma_zero_radius_arc(rect: Rectangle, corner: Corner, n: int)
    requires
        n >= 0,
    ensures
        arc_of(rect, corner, 0, n) == Seq::new(
            (n + 1) as nat,
            |i: int| rect.spec_vertex(corner).scaled(n * n),
        ),
{
    let v = rect.spec_vertex(corner);
    assert forall|i: int| 0 <= i <= n implies #[trigger] arc_of(rect, corner, 0, n)[i] == v.scaled(
        n * n,
    ) by {
        lemma_blend_constant(v.x, n, i);
        lemma_blend_constant(v.y, n, i);
    }
    assert(arc_of(rect, corner, 0, n) =~= Seq::new((n + 1) as nat, |i: int| v.scaled(n * n)));
}

/// With radius zero the outline traces the sharp rectangle: each of its
/// vertices is the true vertex of the corner whose arc it belongs to.
pub proof fn lemma_zero_radius_outline(rect: Rectangle, n: int)
    requires
        n >= 0,
    ensures
        outline(rect, 0, n).len() == 4 * (n + 1),
        forall|k: int|
            0 <= k < 4 * (n + 1) ==> #[trigger] outline(rect, 0, n)[k] == rect.spec_vertex(
                Corner::at(k / (n + 1)),
            ).scaled(n * n),
{
    lemma_outline_at(rect, 0, n, 0);
    assert forall|k: int| 0 <= k < 4 * (n + 1) implies #[trigger] outline(rect, 0, n)[k]
        == rect.spec_vertex(Corner::at(k / (n + 1))).scaled(n * n) by {
        let corner = Corner::at(k / (n + 1));
        let i: int = k % (n + 1);
        lemma_outline_at(rect, 0, n, k);
        lemma_zero_radius_arc(rect, corner, n);
        assert(arc_of(rect, corner, 0, n)[i] == arc_point(rect, corner, 0, n, i));
    }
}

/// Whether `p`, on the lattice refined by `n * n`, lies on the line of the
/// straight edge by which the traversal leaves `corner`.
pub open spec fn on_edge_after(rect: Rectangle, corner: Corner, n: int, p: MathPoint) -> bool {
    match corner {
        Corner::TopLeft => p.y == rect.min_y * (n * n),
        Corner::TopRight => p.x == rect.max_x() * (n * n),
        Corner::BottomRight => p.y == rect.max_y() * (n * n),
        Corner::BottomLeft => p.x == rect.min_x * (n * n),
    }
}

/// The last vertex of a corner's arc and the first vertex of the next
/// corner's arc both lie on the edge line between the two corners, so the
/// segment that joins them runs along that edge.
pub proof fn lemma_arcs_join_along_edges(rect: Rectangle, radius: int, n: int, corner: Corner)
    requires
        n >= 1,
    ensures
        on_edge_after(rect, corner, n, arc_of(rect, corner, radius, n).last()),
        on_edge_after(rect, corner, n, arc_of(rect, corner.next(), radius, n).first()),
{
    let next = corner.next();
    lemma_curve_endpoints(
        rect.spec_cut_in(corner, radius),
        rect.spec_vertex(corner),
        rect.spec_cut_out(corner, radius),
        n,
    );
    lemma_curve_endpoints(
        rect.spec_cut_in(next, radius),
        rect.spec_vertex(next),
        rect.spec_cut_out(next, radius),
        n,
    );
}

/// With a radius of at most half the shorter side every vertex of the
/// outline lies inside the rectangle or on its border.
pub proof fn lemma_outline_within_rectangle(rect: Rectangle, radius: int, n: int, k: int)
    requires
        n >= 1,
        rect.admits_radius(radius),
        0 <= k < 4 * (n + 1),
    ensures
        outline(rect, radius, n).len() == 4 * (n + 1),
        rect.min_x * (n * n) <= outline(rect, radius, n)[k].x <= rect.max_x() * (n * n),
        rect.min_y * (n * n) <= outline(rect, radius, n)[k].y <= rect.max_y() * (n * n),
{
    lemma_outline_at(rect, radius, n, k);
    let q: int = k / (n + 1);
    let i: int = k % (n + 1);
    let corner = Corner::at(q);
    let a = rect.spec_cut_in(corner, radius);
    let c = rect.spec_vertex(corner);
    let b = rect.spec_cut_out(corner, radius);
    lemma_blend_bounds(a.x, c.x, b.x, n, i, rect.min_x as int, rect.max_x());
    lemma_blend_bounds(a.y, c.y, b.y, n, i, rect.min_y as int, rect.max_y());
}

/// Building is repeatable: two answers to the same request hold the same
/// vertices in the same order on the same lattice, or are the same refusal.
pub proof fn lemma_build_is_repeatable(
    rect: Rectangle,
    radius: int,
    steps: int,
    first: Result<Polyline, GeometryError>,
    second: Result<Polyline, GeometryError>,
)
    requires
        built(first, rect, radius, steps),
        built(second, rect, radius, steps),
    ensures
        match (first, second) {
            (Ok(a), Ok(b)) => a.scale == b.scale && a@ == b@,
            (Err(e), Err(f)) => e == f,
            _ => false,
        },
{
}

/// Samples the arc that rounds `corner` of `rect` into `steps` segments.
///
/// The arc runs from the first to the second of
/// [`Rectangle::cut_points`], bent towards the rectangle's true vertex.
/// Zero segments are refused with [`GeometryError::InvalidResolution`], and
/// nothing else is.
pub fn sample_corner(rect: &Rectangle, corner: Corner, radius: u32, steps: u16) -> (res: Result<
    Polyline,
    GeometryError,
>)
    ensures
        steps == 0 ==> res == Err::<Polyline, GeometryError>(GeometryError::InvalidResolution),
        steps > 0 ==> res is Ok,
        res matches Ok(line) ==> {
            &&& line.scale == steps * steps
            &&& line@ == arc_of(*rect, corner, radius as int, steps as int)
            &&& line@.len() == steps + 1
            &&& line@.first() == rect.spec_cut_in(corner, radius as int).scaled(steps * steps)
            &&& line@.last() == rect.spec_cut_out(corner, radius as int).scaled(steps * steps)
        },
{
    let (cut_in, cut_out) = rect.cut_points(corner, radius);
    sample(cut_in, rect.vertex(corner), cut_out, steps)
}

/// Builds the outline of `rect` with its corners rounded by `radius`, each
/// corner sampled into `steps` segments.
///
/// The answer lists the `4·(steps + 1)` vertices of the four arcs in the
/// order top-left, top-right, bottom-right, bottom-left, on the lattice
/// refined by `steps * steps`. Vertices shared by two arcs are listed twice.
/// Zero segments are refused with [`GeometryError::InvalidResolution`], and
/// nothing else is.
///
/// A radius of more than half the shorter side is accepted and used as it
/// is: the outline then overlaps itself. [`Rectangle::validate_radius`]
/// tells beforehand.
pub fn build(rect: Rectangle, radius: u32, steps: u16) -> (res: Result<Outline, GeometryError>)
    ensures
        built(res, rect, radius as int, steps as int),
        steps == 0 <==> res is Err,
        res matches Ok(line) ==> {
            &&& line@.len() == 4 * (steps + 1)
            &&& radius == 0 ==> forall|k: int|
                0 <= k < 4 * (steps + 1) ==> #[trigger] line@[k] == rect.spec_vertex(
                    Corner::at(k / (steps + 1)),
                ).scaled(steps * steps)
            &&& rect.admits_radius(radius as int) ==> is_convex(line@) && never_crosses(line@)
        },
{
    let mut line = sample_corner(&rect, Corner::TopLeft, radius, steps)?;
    let top_right = sample_corner(&rect, Corner::TopRight, radius, steps)?;
    let bottom_right = sample_corner(&rect, Corner::BottomRight, radius, steps)?;
    let bottom_left = sample_corner(&rect, Corner::BottomLeft, radius, steps)?;
    append_arc(&mut line, top_right);
    append_arc(&mut line, bottom_right);
    append_arc(&mut line, bottom_left);
    proof {
        if radius == 0 {
            lemma_zero_radius_outline(rect, steps as int);
        }
        if rect.admits_radius(radius as int) {
            lemma_outline_is_convex(rect, radius as int, steps as int);
            lemma_outline_never_crosses(rect, radius as int, steps as int);
        }
    }
    Ok(line)
}

/// Continues `line` with the vertices of `arc`.
fn append_arc(line: &mut Polyline, arc: Polyline)
    ensures
        final(line)@ == old(line)@ + arc@,
        final(line).scale == old(line).scale,
{
    let mut rest = arc;
    line.points.append(&mut rest.points);
    assert(line@ =~= old(line)@ + arc@);
}

} // verus!
