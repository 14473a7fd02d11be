use rounded_rect::outline::build;
use rounded_rect::point::FinePoint;
use rounded_rect::rect::Rectangle;

fn orient(a: FinePoint, b: FinePoint, c: FinePoint) -> i128 {
    (b.x - a.x) * (c.y - a.y) - (b.y - a.y) * (c.x - a.x)
}

fn separates(a: FinePoint, b: FinePoint, p: FinePoint, q: FinePoint) -> bool {
    (orient(a, b, p) > 0 && orient(a, b, q) < 0) || (orient(a, b, p) < 0 && orient(a, b, q) > 0)
}

fn crosses(a: FinePoint, b: FinePoint, c: FinePoint, d: FinePoint) -> bool {
    separates(a, b, c, d) && separates(c, d, a, b)
}

fn crossings(points: &[FinePoint]) -> usize {
    let len = points.len();
    let mut found = 0;
    for k in 0..len {
        for j in 0..len {
            if crosses(points[k], points[(k + 1) % len], points[j], points[(j + 1) % len]) {
                found += 1;
            }
        }
    }
    found
}

fn is_convex(points: &[FinePoint]) -> bool {
    let len = points.len();
    (0..len).all(|k| (0..len).all(|j| orient(points[k], points[(k + 1) % len], points[j]) >= 0))
}

#[test]
fn outline_is_convex_and_never_crosses_itself() {
    let cases = [
        (Rectangle::new(0, 0, 100, 50), 10u32, 4u16),
        (Rectangle::new(0, 0, 100, 50), 25, 8),
        (Rectangle::new(0, 0, 100, 100), 50, 5),
        (Rectangle::new(-70, 40, 31, 90), 15, 3),
        (Rectangle::new(5, 5, 64, 64), 0, 2),
        (Rectangle::new(5, 5, 64, 64), 1, 1),
        (Rectangle::new(0, 0, 0, 0), 0, 3),
    ];
    for (rect, radius, steps) in cases {
        assert_eq!(rect.validate_radius(radius), Ok(()));
        let line = build(rect, radius, steps).unwrap();
        assert!(is_convex(&line.points));
        assert_eq!(crossings(&line.points), 0);
    }
}

#[test]
fn closing_edge_crosses_no_other_edge() {
    let line = build(Rectangle::new(0, 0, 100, 50), 10, 16).unwrap();
    let len = line.points.len();
    let (last, first) = (line.points[len - 1], line.points[0]);
    for j in 0..len {
        assert!(!crosses(last, first, line.points[j], line.points[(j + 1) % len]));
    }
}

#[test]
fn outline_stays_inside_the_rectangle() {
    let rect = Rectangle::new(-70, 40, 31, 90);
    let line = build(rect, 15, 9).unwrap();
    let scale = line.scale as i128;
    for p in line.points.iter() {
        assert!(-70 * scale <= p.x && p.x <= -39 * scale);
        assert!(40 * scale <= p.y && p.y <= 130 * scale);
    }
}

#[test]
fn oversized_radius_makes_the_outline_cross_itself() {
    let line = build(Rectangle::new(0, 0, 10, 10), 8, 2).unwrap();
    assert!(!is_convex(&line.points));
    assert!(crossings(&line.points) > 0);
}
