//! The shape of a built outline: it is a convex polygon, and so none of its
//! edges crosses another.
//!
//! The outline is read as a closed polygon: edge `k` runs from vertex `k` to
//! the vertex after it, and the last edge runs back to vertex 0. Everything
//! here holds for a radius of at most half the shorter side of the
//! rectangle; a larger radius makes neighbouring arcs pass each other.

use vstd::prelude::*;
use vstd::arithmetic::div_mod::lemma_fundamental_div_mod;
use vstd::arithmetic::mul::lemma_mul_is_commutative;
use crate::curve::blend;
use crate::outline::{arc_point, lemma_outline_at, lemma_outline_vertex, outline};
use crate::point::MathPoint;
use crate::rect::{Corner, Rectangle};

verus! {

/// Twice the signed area of the triangle `a`, `b`, `c`. With `y` growing
/// downwards it is positive when `c` lies to the right of the directed line
/// from `a` to `b`, zero when the three points lie on one line.
pub open spec fn orient(a: MathPoint, b: MathPoint, c: MathPoint) -> int {
    (b.x - a.x) * (c.y - a.y) - (b.y - a.y) * (c.x - a.x)
}

/// Whether `p` and `q` lie strictly on opposite sides of the line through
/// `a` and `b`.
pub open spec fn separates(a: MathPoint, b: MathPoint, p: MathPoint, q: MathPoint) -> bool {
    ||| orient(a, b, p) > 0 && orient(a, b, q) < 0
    ||| orient(a, b, p) < 0 && orient(a, b, q) > 0
}

/// Whether the segments `a b` and `c d` cross: they meet in a single point
/// that is an end of neither.
pub open spec fn crosses(a: MathPoint, b: MathPoint, c: MathPoint, d: MathPoint) -> bool {
    separates(a, b, c, d) && separates(c, d, a, b)
}

/// The vertex after vertex `k` of the closed polygon `poly`.
pub open spec fn successor(poly: Seq<MathPoint>, k: int) -> MathPoint {
    if k + 1 < poly.len() {
        poly[k + 1]
    } else {
        poly[0]
    }
}

/// Whether every vertex of the closed polygon `poly` lies on the right of,
/// or on, the line through each of its edges.
pub open spec fn is_convex(poly: Seq<MathPoint>) -> bool {
    forall|k: int, j: int|
        0 <= k < poly.len() && 0 <= j < poly.len() ==> orient(
            #[trigger] poly[k],
            successor(poly, k),
            #[trigger] poly[j],
        ) >= 0
}

/// Whether no edge of the closed polygon `poly` crosses another.
pub open spec fn never_crosses(poly: Seq<MathPoint>) -> bool {
    forall|k: int, j: int|
        0 <= k < poly.len() && 0 <= j < poly.len() ==> !crosses(
            #[trigger] poly[k],
            successor(poly, k),
            #[trigger] poly[j],
            successor(poly, j),
        )
}

/// No edge of a convex polygon crosses another: the two ends of an edge are
/// never strictly on opposite sides of another edge's line.
pub proof fn lemma_convex_never_crosses(poly: Seq<MathPoint>)
    requires
        is_convex(poly),
    ensures
        never_crosses(poly),
{
    assert forall|k: int, j: int| 0 <= k < poly.len() && 0 <= j < poly.len() implies !crosses(
        #[trigger] poly[k],
        successor(poly, k),
        #[trigger] poly[j],
        successor(poly, j),
    ) by {
        let after: int = if j + 1 < poly.len() {
            j + 1
        } else {
            0
        };
        assert(orient(poly[k], successor(poly, k), poly[j]) >= 0);
        assert(orient(poly[k], successor(poly, k), poly[after]) >= 0);
    }
}

/// The outline of a rectangle rounded with a radius of at most half its
/// shorter side is a convex polygon.
pub proof fn lemma_outline_is_convex(rect: Rectangle, radius: int, n: int)
    requires
        n >= 1,
        rect.admits_radius(radius),
    ensures
        is_convex(outline(rect, radius, n)),
{
    let poly = outline(rect, radius, n);
    lemma_outline_at(rect, radius, n, 0);
    assert forall|k: int, j: int| 0 <= k < poly.len() && 0 <= j < poly.len() implies orient(
        #[trigger] poly[k],
        successor(poly, k),
        #[trigger] poly[j],
    ) >= 0 by {
        let m: int = n + 1;
        let (q, i) = (k / m, k % m);
        let (qj, ij) = (j / m, j % m);
        lemma_outline_at(rect, radius, n, k);
        lemma_outline_at(rect, radius, n, j);
        lemma_fundamental_div_mod(k, m);
        lemma_mul_is_commutative(m, q);
        lemma_successor(rect, radius, n, q, i);
        if i < n {
            lemma_arc_edge_side(rect, radius, n, Corner::at(q), i, Corner::at(qj), ij);
        } else {
            lemma_join_edge_side(rect, radius, n, Corner::at(q), Corner::at(qj), ij);
        }
    }
}

/// In the outline of a rectangle rounded with a radius of at most half its
/// shorter side no edge crosses another. In particular the segment that
/// closes the outline, from its last vertex back to its first, crosses no
/// edge.
pub proof fn lemma_outline_never_crosses(rect: Rectangle, radius: int, n: int)
    requires
        n >= 1,
        rect.admits_radius(radius),
    ensures
        never_crosses(outline(rect, radius, n)),
        forall|j: int|
            0 <= j < outline(rect, radius, n).len() ==> !crosses(
                outline(rect, radius, n).last(),
                outline(rect, radius, n).first(),
                #[trigger] outline(rect, radius, n)[j],
                successor(outline(rect, radius, n), j),
            ),
{
    let poly = outline(rect, radius, n);
    lemma_outline_is_convex(rect, radius, n);
    lemma_convex_never_crosses(poly);
    lemma_outline_at(rect, radius, n, 0);
    assert forall|j: int| 0 <= j < poly.len() implies !crosses(
        poly.last(),
        poly.first(),
        #[trigger] poly[j],
        successor(poly, j),
    ) by {
        let end: int = poly.len() - 1;
        assert(poly[end] == poly.last() && successor(poly, end) == poly.first());
    }
}

/// The vertex after vertex `i` of the arc at place `q` is the next vertex of
/// that arc, or the first vertex of the next corner's arc.
proof fn lemma_successor(rect: Rectangle, radius: int, n: int, q: int, i: int)
    requires
        n >= 0,
        0 <= q < 4,
        0 <= i <= n,
    ensures
        successor(outline(rect, radius, n), q * (n + 1) + i) == if i < n {
            arc_point(rect, Corner::at(q), radius, n, i + 1)
        } else {
            arc_point(rect, Corner::at(q).next(), radius, n, 0)
        },
{
    lemma_outline_vertex(rect, radius, n, q, i);
    if i < n {
        lemma_outline_vertex(rect, radius, n, q, i + 1);
    } else if q == 0 {
        lemma_outline_vertex(rect, radius, n, 1, 0);
    } else if q == 1 {
        lemma_outline_vertex(rect, radius, n, 2, 0);
    } else if q == 2 {
        lemma_outline_vertex(rect, radius, n, 3, 0);
    } else {
        lemma_outline_vertex(rect, radius, n, 0, 0);
    }
}

/// How far a rounding of radius `r` has moved along an edge after `i` of its
/// segments, on the refined lattice: `r·i²`.
spec fn rise(r: int, i: int) -> int {
    r * (i * i)
}

/// The point that lies `out_depth` inside the edge by which the traversal
/// leaves `corner` and `in_depth` inside the edge by which it arrives, on
/// the lattice refined by `n * n`.
spec fn framed(rect: Rectangle, corner: Corner, n: int, out_depth: int, in_depth: int) -> MathPoint {
    let left: int = rect.min_x * (n * n);
    let top: int = rect.min_y * (n * n);
    let right: int = left + rect.width * (n * n);
    let bottom: int = top + rect.height * (n * n);
    match corner {
        Corner::TopLeft => MathPoint { x: left + in_depth, y: top + out_depth },
        Corner::TopRight => MathPoint { x: right - out_depth, y: top + in_depth },
        Corner::BottomRight => MathPoint { x: right - in_depth, y: bottom - out_depth },
        Corner::BottomLeft => MathPoint { x: left + out_depth, y: bottom - in_depth },
    }
}

/// The depth of `t` inside the edge by which the traversal leaves `corner`.
spec fn out_depth(rect: Rectangle, corner: Corner, n: int, t: MathPoint) -> int {
    let left: int = rect.min_x * (n * n);
    let top: int = rect.min_y * (n * n);
    let right: int = left + rect.width * (n * n);
    let bottom: int = top + rect.height * (n * n);
    match corner {
        Corner::TopLeft => t.y - top,
        Corner::TopRight => right - t.x,
        Corner::BottomRight => bottom - t.y,
        Corner::BottomLeft => t.x - left,
    }
}

/// The depth of `t` inside the edge by which the traversal arrives at
/// `corner`.
spec fn in_depth(rect: Rectangle, corner: Corner, n: int, t: MathPoint) -> int {
    let left: int = rect.min_x * (n * n);
    let top: int = rect.min_y * (n * n);
    let right: int = left + rect.width * (n * n);
    let bottom: int = top + rect.height * (n * n);
    match corner {
        Corner::TopLeft => t.x - left,
        Corner::TopRight => t.y - top,
        Corner::BottomRight => right - t.x,
        Corner::BottomLeft => bottom - t.y,
    }
}

/// The length on the refined lattice of the edge by which the traversal
/// leaves `corner`.
spec fn out_edge(rect: Rectangle, corner: Corner, n: int) -> int {
    match corner {
        Corner::TopLeft | Corner::BottomRight => rect.width * (n * n),
        Corner::TopRight | Corner::BottomLeft => rect.height * (n * n),
    }
}

/// A sample written about its control coordinate.
proof fn lemma_blend_about_control(start: int, control: int, end: int, n: int, i: int)
    ensures
        blend(start, control, end, n, i) == control * (n * n) + (start - control) * ((n - i) * (n
            - i)) + (end - control) * (i * i),
{
    assert(start * ((n - i) * (n - i)) + control * (2 * (i * (n - i))) + end * (i * i) == control
        * (n * n) + (start - control) * ((n - i) * (n - i)) + (end - control) * (i * i))
        by (nonlinear_arith);
}

/// Vertex `i` of a corner's arc lies `r·(n−i)²` inside the edge the
/// traversal leaves by and `r·i²` inside the edge it arrives by.
proof fn lemma_arc_point_framed(rect: Rectangle, r: int, n: int, corner: Corner, i: int)
    ensures
        arc_point(rect, corner, r, n, i) == framed(rect, corner, n, rise(r, n - i), rise(r, i)),
{
    let start = rect.spec_cut_in(corner, r);
    let control = rect.spec_vertex(corner);
    let end = rect.spec_cut_out(corner, r);
    lemma_blend_about_control(start.x, control.x, end.x, n, i);
    lemma_blend_about_control(start.y, control.y, end.y, n, i);
    let s: int = n * n;
    let up: int = (n - i) * (n - i);
    let down: int = i * i;
    assert((rect.min_x + rect.width) * s == rect.min_x * s + rect.width * s) by (nonlinear_arith);
    assert((rect.min_y + rect.height) * s == rect.min_y * s + rect.height * s)
        by (nonlinear_arith);
    assert((-r) * up == -(r * up) && (-r) * down == -(r * down) && 0 * up == 0 && 0 * down == 0)
        by (nonlinear_arith);
}

/// Orientation, computed from depths in the frame of one corner.
proof fn lemma_orient_framed(
    rect: Rectangle,
    corner: Corner,
    n: int,
    p: MathPoint,
    q: MathPoint,
    t: MathPoint,
)
    ensures
        orient(p, q, t) == (in_depth(rect, corner, n, q) - in_depth(rect, corner, n, p)) * (
        out_depth(rect, corner, n, t) - out_depth(rect, corner, n, p)) - (out_depth(
            rect,
            corner,
            n,
            q,
        ) - out_depth(rect, corner, n, p)) * (in_depth(rect, corner, n, t) - in_depth(
            rect,
            corner,
            n,
            p,
        )),
{
    let pa: int = out_depth(rect, corner, n, p);
    let pb: int = in_depth(rect, corner, n, p);
    let qa: int = out_depth(rect, corner, n, q);
    let qb: int = in_depth(rect, corner, n, q);
    let ta: int = out_depth(rect, corner, n, t);
    let tb: int = in_depth(rect, corner, n, t);
    match corner {
        Corner::TopLeft => {
            assert((q.x - p.x) * (t.y - p.y) - (q.y - p.y) * (t.x - p.x) == (qb - pb) * (ta - pa)
                - (qa - pa) * (tb - pb)) by (nonlinear_arith)
                requires
                    q.x - p.x == qb - pb,
                    q.y - p.y == qa - pa,
                    t.x - p.x == tb - pb,
                    t.y - p.y == ta - pa,
            ;
        },
        Corner::TopRight => {
            assert((q.x - p.x) * (t.y - p.y) - (q.y - p.y) * (t.x - p.x) == (qb - pb) * (ta - pa)
                - (qa - pa) * (tb - pb)) by (nonlinear_arith)
                requires
                    q.x - p.x == -(qa - pa),
                    q.y - p.y == qb - pb,
                    t.x - p.x == -(ta - pa),
                    t.y - p.y == tb - pb,
            ;
        },
        Corner::BottomRight => {
            assert((q.x - p.x) * (t.y - p.y) - (q.y - p.y) * (t.x - p.x) == (qb - pb) * (ta - pa)
                - (qa - pa) * (tb - pb)) by (nonlinear_arith)
                requires
                    q.x - p.x == -(qb - pb),
                    q.y - p.y == -(qa - pa),
                    t.x - p.x == -(tb - pb),
                    t.y - p.y == -(ta - pa),
            ;
        },
        Corner::BottomLeft => {
            assert((q.x - p.x) * (t.y - p.y) - (q.y - p.y) * (t.x - p.x) == (qb - pb) * (ta - pa)
                - (qa - pa) * (tb - pb)) by (nonlinear_arith)
                requires
                    q.x - p.x == qa - pa,
                    q.y - p.y == -(qb - pb),
                    t.x - p.x == ta - pa,
                    t.y - p.y == -(tb - pb),
            ;
        },
    }
}

/// A rounding never moves backwards and ends `r·n²` along the edge.
proof fn lemma_rise_range(r: int, n: int, i: int)
    by (nonlinear_arith)
    requires
        r >= 0,
        0 <= i <= n,
    ensures
        rise(r, 0) == 0,
        0 <= rise(r, i) <= rise(r, n),
{
}

/// Where the vertices of one corner's arc lie in the frame of a corner:
/// those of the corner itself at the depths of the rounding, all others at
/// least `r·n²` inside one of its two edges and not outside the other.
proof fn lemma_arc_zones(
    rect: Rectangle,
    r: int,
    n: int,
    corner: Corner,
    other: Corner,
    j: int,
)
    requires
        n >= 1,
        rect.admits_radius(r),
        0 <= j <= n,
    ensures
        ({
            let t = arc_point(rect, other, r, n, j);
            let a = out_depth(rect, corner, n, t);
            let b = in_depth(rect, corner, n, t);
            &&& a >= 0
            &&& b >= 0
            &&& other == corner ==> a == rise(r, n - j) && b == rise(r, j)
            &&& other != corner ==> a >= rise(r, n) || b >= rise(r, n)
            &&& out_edge(rect, corner, n) >= 2 * rise(r, n)
        }),
{
    lemma_arc_point_framed(rect, r, n, other, j);
    lemma_rise_range(r, n, j);
    lemma_rise_range(r, n, n - j);
    let s: int = n * n;
    assert(rect.width * s >= 2 * (r * s) && rect.height * s >= 2 * (r * s)) by (nonlinear_arith)
        requires
            rect.width >= 2 * r,
            rect.height >= 2 * r,
            s == n * n,
    ;
}

/// Along an arc every other vertex of the same arc and every point beyond
/// either of its ends lies on the right of, or on, each edge.
proof fn lemma_arc_turn(r: int, n: int, i: int, a: int, b: int, j: int)
    requires
        r >= 0,
        n >= 1,
        0 <= i < n,
        0 <= j <= n,
        a >= 0,
        b >= 0,
        (a == rise(r, n - j) && b == rise(r, j)) || a >= rise(r, n) || b >= rise(r, n),
    ensures
        (rise(r, i + 1) - rise(r, i)) * (a - rise(r, n - i)) - (rise(r, n - (i + 1)) - rise(
            r,
            n - i,
        )) * (b - rise(r, i)) >= 0,
{
    let forth: int = rise(r, i + 1) - rise(r, i);
    let back: int = rise(r, n - i) - rise(r, n - (i + 1));
    assert(forth == r * (2 * i + 1) && back == r * (2 * (n - i) - 1)) by (nonlinear_arith)
        requires
            forth == r * ((i + 1) * (i + 1)) - r * (i * i),
            back == r * ((n - i) * (n - i)) - r * ((n - (i + 1)) * (n - (i + 1))),
    ;
    assert(forth >= 0 && back >= 0) by (nonlinear_arith)
        requires
            forth == r * (2 * i + 1),
            back == r * (2 * (n - i) - 1),
            r >= 0,
            0 <= i < n,
    ;
    // The vertex of the arc that the point is measured against: the point
    // itself when it is on the arc, an end of the arc when it lies beyond.
    let m: int = if a == rise(r, n - j) && b == rise(r, j) {
        j
    } else if a >= rise(r, n) {
        0
    } else {
        n
    };
    lemma_rise_range(r, n, n);
    let ma: int = rise(r, n - m);
    let mb: int = rise(r, m);
    assert(a >= ma && b >= mb);
    lemma_arc_turn_within(r, n, i, m);
    assert(forth * (a - rise(r, n - i)) + back * (b - rise(r, i)) >= forth * (ma - rise(r, n - i))
        + back * (mb - rise(r, i))) by (nonlinear_arith)
        requires
            forth >= 0,
            back >= 0,
            a >= ma,
            b >= mb,
    ;
    assert((rise(r, n - (i + 1)) - rise(r, n - i)) * (b - rise(r, i)) == -(back * (b - rise(r, i))))
        by (nonlinear_arith)
        requires
            back == rise(r, n - i) - rise(r, n - (i + 1)),
    ;
}

/// Along an arc every vertex `m` of the same arc lies on the right of, or
/// on, the edge from vertex `i` to vertex `i + 1`: the orientation is
/// `2·n·r²·(m − i)·(m − i − 1)`.
proof fn lemma_arc_turn_within(r: int, n: int, i: int, m: int)
    requires
        n >= 1,
    ensures
        (rise(r, i + 1) - rise(r, i)) * (rise(r, n - m) - rise(r, n - i)) + (rise(r, n - i) - rise(
            r,
            n - (i + 1),
        )) * (rise(r, m) - rise(r, i)) >= 0,
{
    let forth: int = 2 * i + 1;
    let back: int = 2 * (n - i) - 1;
    let du: int = (n - m) * (n - m) - (n - i) * (n - i);
    let dv: int = m * m - i * i;
    let gap: int = (m - i) * (m - i - 1);
    lemma_turn_identity(n, i, m);
    assert((m - i) * (m - i - 1) >= 0) by (nonlinear_arith);
    assert(n * gap >= 0) by (nonlinear_arith)
        requires
            n >= 1,
            gap >= 0,
    ;
    lemma_rise_difference(r, i + 1, i);
    lemma_rise_difference(r, n - i, n - (i + 1));
    lemma_rise_difference(r, n - m, n - i);
    lemma_rise_difference(r, m, i);
    assert((i + 1) * (i + 1) - i * i == forth && (n - i) * (n - i) - (n - (i + 1)) * (n - (i + 1))
        == back) by (nonlinear_arith)
        requires
            forth == 2 * i + 1,
            back == 2 * (n - i) - 1,
    ;
    lemma_scaled_products(r, forth, du, back, dv);
    assert((r * r) * (forth * du + back * dv) >= 0) by (nonlinear_arith)
        requires
            forth * du + back * dv >= 0,
    ;
}

/// The polynomial identity behind the turn of an arc.
proof fn lemma_turn_identity(n: int, i: int, m: int)
    ensures
        (2 * i + 1) * ((n - m) * (n - m) - (n - i) * (n - i)) + (2 * (n - i) - 1) * (m * m - i * i)
            == 2 * (n * ((m - i) * (m - i - 1))),
{
    let d: int = m - i;
    let c: int = m + i;
    let a: int = 2 * i + 1;
    let n2: int = 2 * n;
    assert((n - m) * (n - m) - (n - i) * (n - i) == -(d * (n2 - c))) by (nonlinear_arith)
        requires
            d == m - i,
            c == m + i,
            n2 == 2 * n,
    ;
    assert(m * m - i * i == d * c) by (nonlinear_arith)
        requires
            d == m - i,
            c == m + i,
    ;
    let dc: int = d * c;
    let dn: int = d * n2;
    assert(d * (n2 - c) == dn - dc) by (nonlinear_arith)
        requires
            dc == d * c,
            dn == d * n2,
    ;
    assert(a * (-(dn - dc)) + (n2 - a) * dc == n2 * dc - a * dn) by (nonlinear_arith);
    assert(n2 * dc - a * dn == d * (n2 * (c - a))) by (nonlinear_arith)
        requires
            dc == d * c,
            dn == d * n2,
    ;
    assert(d * (n2 * (c - a)) == 2 * (n * (d * (d - 1)))) by (nonlinear_arith)
        requires
            n2 == 2 * n,
            c - a == d - 1,
    ;
}

/// The difference of two risings is the radius times the difference of the
/// squares.
proof fn lemma_rise_difference(r: int, i: int, j: int)
    ensures
        rise(r, i) - rise(r, j) == r * (i * i - j * j),
{
    assert(r * (i * i) - r * (j * j) == r * (i * i - j * j)) by (nonlinear_arith);
}

/// A common factor taken out of a sum of two products.
proof fn lemma_scaled_products(r: int, x: int, u: int, y: int, v: int)
    ensures
        (r * x) * (r * u) + (r * y) * (r * v) == (r * r) * (x * u + y * v),
{
    assert((r * x) * (r * u) == (r * r) * (x * u)) by (nonlinear_arith);
    assert((r * y) * (r * v) == (r * r) * (y * v)) by (nonlinear_arith);
    assert((r * r) * (x * u) + (r * r) * (y * v) == (r * r) * (x * u + y * v))
        by (nonlinear_arith);
}

/// Every vertex of the outline lies on the right of, or on, the edge from
/// vertex `i` to vertex `i + 1` of the arc of `corner`.
proof fn lemma_arc_edge_side(
    rect: Rectangle,
    r: int,
    n: int,
    corner: Corner,
    i: int,
    other: Corner,
    j: int,
)
    requires
        n >= 1,
        rect.admits_radius(r),
        0 <= i < n,
        0 <= j <= n,
    ensures
        orient(
            arc_point(rect, corner, r, n, i),
            arc_point(rect, corner, r, n, i + 1),
            arc_point(rect, other, r, n, j),
        ) >= 0,
{
    let p = arc_point(rect, corner, r, n, i);
    let q = arc_point(rect, corner, r, n, i + 1);
    let t = arc_point(rect, other, r, n, j);
    lemma_arc_point_framed(rect, r, n, corner, i);
    lemma_arc_point_framed(rect, r, n, corner, i + 1);
    lemma_arc_zones(rect, r, n, corner, other, j);
    lemma_orient_framed(rect, corner, n, p, q, t);
    lemma_arc_turn(
        r,
        n,
        i,
        out_depth(rect, corner, n, t),
        in_depth(rect, corner, n, t),
        j,
    );
}

/// Every vertex of the outline lies on the right of, or on, the straight
/// edge that joins the arc of `corner` to the arc of the next corner.
proof fn lemma_join_edge_side(
    rect: Rectangle,
    r: int,
    n: int,
    corner: Corner,
    other: Corner,
    j: int,
)
    requires
        n >= 1,
        rect.admits_radius(r),
        0 <= j <= n,
    ensures
        orient(
            arc_point(rect, corner, r, n, n),
            arc_point(rect, corner.next(), r, n, 0),
            arc_point(rect, other, r, n, j),
        ) >= 0,
{
    let p = arc_point(rect, corner, r, n, n);
    let q = arc_point(rect, corner.next(), r, n, 0);
    let t = arc_point(rect, other, r, n, j);
    lemma_arc_point_framed(rect, r, n, corner, n);
    lemma_arc_point_framed(rect, r, n, corner.next(), 0);
    lemma_rise_range(r, n, n);
    lemma_arc_zones(rect, r, n, corner, other, j);
    lemma_orient_framed(rect, corner, n, p, q, t);
    let span: int = in_depth(rect, corner, n, q) - in_depth(rect, corner, n, p);
    let depth: int = out_depth(rect, corner, n, t);
    assert(out_depth(rect, corner, n, p) == 0);
    assert(out_depth(rect, corner, n, q) == 0);
    assert(span == out_edge(rect, corner, n) - 2 * rise(r, n));
    assert(span * (depth - 0) - (0 - 0) * (in_depth(rect, corner, n, t) - in_depth(
        rect,
        corner,
        n,
        p,
    )) >= 0) by (nonlinear_arith)
        requires
            span >= 0,
            depth >= 0,
    ;
}

} // verus!
