use rounded_rect::error::GeometryError;
use rounded_rect::outline::{build, sample_corner};
use rounded_rect::point::{FinePoint, Point, Polyline};
use rounded_rect::rect::{Corner, Rectangle};

fn numerators(line: &Polyline) -> Vec<(i128, i128)> {
    line.points.iter().map(|p| (p.x, p.y)).collect()
}

#[test]
fn cut_points_of_a_square() {
    let rect = Rectangle::new(0, 0, 100, 100);
    assert_eq!(rect.cut_points(Corner::TopLeft, 10), (Point::new(0, 10), Point::new(10, 0)));
    assert_eq!(rect.cut_points(Corner::TopRight, 10), (Point::new(90, 0), Point::new(100, 10)));
    assert_eq!(
        rect.cut_points(Corner::BottomRight, 10),
        (Point::new(100, 90), Point::new(90, 100))
    );
    assert_eq!(rect.cut_points(Corner::BottomLeft, 10), (Point::new(10, 100), Point::new(0, 90)));
}

#[test]
fn cut_points_follow_the_table() {
    let (x, y, w, h, r) = (-30i64, 7i64, 64i64, 20i64, 9i64);
    let rect = Rectangle::new(-30, 7, 64, 20);
    assert_eq!(rect.cut_points(Corner::TopLeft, 9), (Point::new(x, y + r), Point::new(x + r, y)));
    assert_eq!(
        rect.cut_points(Corner::TopRight, 9),
        (Point::new(x + w - r, y), Point::new(x + w, y + r))
    );
    assert_eq!(
        rect.cut_points(Corner::BottomRight, 9),
        (Point::new(x + w, y + h - r), Point::new(x + w - r, y + h))
    );
    assert_eq!(
        rect.cut_points(Corner::BottomLeft, 9),
        (Point::new(x + r, y + h), Point::new(x, y + h - r))
    );
}

#[test]
fn cut_points_at_the_limits_of_the_coordinates() {
    let rect = Rectangle::new(i32::MIN, i32::MAX, u32::MAX, u32::MAX);
    let (x, y, e) = (i32::MIN as i64, i32::MAX as i64, u32::MAX as i64);
    assert_eq!(
        rect.cut_points(Corner::BottomRight, u32::MAX),
        (Point::new(x + e, y), Point::new(x, y + e))
    );
    assert_eq!(
        rect.cut_points(Corner::TopLeft, u32::MAX),
        (Point::new(x, y + e), Point::new(x + e, y))
    );
}

#[test]
fn vertices_of_a_rectangle() {
    let rect = Rectangle::new(-5, 3, 40, 20);
    assert_eq!(rect.vertex(Corner::TopLeft), Point::new(-5, 3));
    assert_eq!(rect.vertex(Corner::TopRight), Point::new(35, 3));
    assert_eq!(rect.vertex(Corner::BottomRight), Point::new(35, 23));
    assert_eq!(rect.vertex(Corner::BottomLeft), Point::new(-5, 23));
}

#[test]
fn radius_up_to_half_the_shorter_side_is_valid() {
    let rect = Rectangle::new(0, 0, 100, 50);
    assert_eq!(rect.validate_radius(0), Ok(()));
    assert_eq!(rect.validate_radius(10), Ok(()));
    assert_eq!(rect.validate_radius(25), Ok(()));
    assert_eq!(rect.validate_radius(26), Err(GeometryError::InvalidRadius));
    assert_eq!(rect.validate_radius(u32::MAX), Err(GeometryError::InvalidRadius));
    let tall = Rectangle::new(0, 0, 7, 100);
    assert_eq!(tall.validate_radius(3), Ok(()));
    assert_eq!(tall.validate_radius(4), Err(GeometryError::InvalidRadius));
    assert_eq!(Rectangle::new(0, 0, 0, 0).validate_radius(0), Ok(()));
    assert_eq!(Rectangle::new(0, 0, 0, 0).validate_radius(1), Err(GeometryError::InvalidRadius));
}

#[test]
fn build_of_a_bar_with_four_segments_per_corner() {
    let line = build(Rectangle::new(0, 0, 100, 50), 10, 4).unwrap();
    assert_eq!(line.scale, 16);
    assert_eq!(line.points.len(), 20);
    let expected: Vec<(i128, i128)> = vec![
        // top-left
        (0, 160),
        (10, 90),
        (40, 40),
        (90, 10),
        (160, 0),
        // top-right
        (1440, 0),
        (1510, 10),
        (1560, 40),
        (1590, 90),
        (1600, 160),
        // bottom-right
        (1600, 640),
        (1590, 710),
        (1560, 760),
        (1510, 790),
        (1440, 800),
        // bottom-left
        (160, 800),
        (90, 790),
        (40, 760),
        (10, 710),
        (0, 640),
    ];
    assert_eq!(numerators(&line), expected);
}

#[test]
fn build_of_a_bar_in_real_coordinates() {
    let line = build(Rectangle::new(0, 0, 100, 50), 10, 4).unwrap();
    let real: Vec<[f64; 2]> = line
        .points
        .iter()
        .map(|p| [p.x as f64 / line.scale as f64, p.y as f64 / line.scale as f64])
        .collect();
    let expected: Vec<[f64; 2]> = vec![
        [0.0, 10.0],
        [0.625, 5.625],
        [2.5, 2.5],
        [5.625, 0.625],
        [10.0, 0.0],
        [90.0, 0.0],
        [94.375, 0.625],
        [97.5, 2.5],
        [99.375, 5.625],
        [100.0, 10.0],
        [100.0, 40.0],
        [99.375, 44.375],
        [97.5, 47.5],
        [94.375, 49.375],
        [90.0, 50.0],
        [10.0, 50.0],
        [5.625, 49.375],
        [2.5, 47.5],
        [0.625, 44.375],
        [0.0, 40.0],
    ];
    assert_eq!(real, expected);
}

#[test]
fn build_is_the_four_corner_arcs_in_order() {
    let rect = Rectangle::new(-20, 15, 300, 120);
    let line = build(rect, 33, 7).unwrap();
    let mut expected: Vec<FinePoint> = Vec::new();
    for corner in [Corner::TopLeft, Corner::TopRight, Corner::BottomRight, Corner::BottomLeft] {
        let arc = sample_corner(&rect, corner, 33, 7).unwrap();
        assert_eq!(arc.scale, 49);
        assert_eq!(arc.points.len(), 8);
        expected.extend(arc.points.iter().copied());
    }
    assert_eq!(line.scale, 49);
    assert_eq!(line.points, expected);
}

#[test]
fn corner_arc_runs_between_the_cut_points() {
    let rect = Rectangle::new(-20, 15, 300, 120);
    for corner in [Corner::TopLeft, Corner::TopRight, Corner::BottomRight, Corner::BottomLeft] {
        let (cut_in, cut_out) = rect.cut_points(corner, 33);
        let arc = sample_corner(&rect, corner, 33, 10).unwrap();
        assert_eq!(arc.points[0], FinePoint { x: cut_in.x as i128 * 100, y: cut_in.y as i128 * 100 });
        assert_eq!(
            arc.points[10],
            FinePoint { x: cut_out.x as i128 * 100, y: cut_out.y as i128 * 100 }
        );
    }
}

#[test]
fn build_with_the_usual_resolution() {
    let line = build(Rectangle::new(0, 0, 500, 50), 10, 200).unwrap();
    assert_eq!(line.scale, 40000);
    assert_eq!(line.points.len(), 804);
    assert_eq!(line.points[0], FinePoint { x: 0, y: 400000 });
    assert_eq!(line.points[200], FinePoint { x: 400000, y: 0 });
    assert_eq!(line.points[201], FinePoint { x: 490 * 40000, y: 0 });
    assert_eq!(line.points[803], FinePoint { x: 0, y: 40 * 40000 });
}

#[test]
fn build_with_radius_zero_repeats_the_vertices() {
    let rect = Rectangle::new(3, -8, 100, 50);
    let steps: u16 = 4;
    let line = build(rect, 0, steps).unwrap();
    assert_eq!(line.points.len(), 20);
    let corners = [Corner::TopLeft, Corner::TopRight, Corner::BottomRight, Corner::BottomLeft];
    for (q, corner) in corners.iter().enumerate() {
        let v = rect.vertex(*corner);
        for i in 0..=steps as usize {
            let p = line.points[q * (steps as usize + 1) + i];
            assert_eq!(p, FinePoint { x: v.x as i128 * 16, y: v.y as i128 * 16 });
        }
    }
    assert_eq!(line.points[0], FinePoint { x: 48, y: -128 });
    assert_eq!(line.points[5], FinePoint { x: 1648, y: -128 });
    assert_eq!(line.points[10], FinePoint { x: 1648, y: 672 });
    assert_eq!(line.points[15], FinePoint { x: 48, y: 672 });
}

#[test]
fn build_with_zero_segments_is_refused() {
    assert_eq!(
        build(Rectangle::new(0, 0, 100, 50), 10, 0).err(),
        Some(GeometryError::InvalidResolution)
    );
    assert_eq!(
        sample_corner(&Rectangle::new(0, 0, 100, 50), Corner::TopLeft, 10, 0).err(),
        Some(GeometryError::InvalidResolution)
    );
}

#[test]
fn build_twice_gives_the_same_outline() {
    let rect = Rectangle::new(12, 34, 560, 78);
    let a = build(rect, 20, 50).unwrap();
    let b = build(rect, 20, 50).unwrap();
    assert_eq!(a.scale, b.scale);
    assert_eq!(a.points, b.points);
}

#[test]
fn build_accepts_an_oversized_radius_as_it_is() {
    let rect = Rectangle::new(0, 0, 10, 10);
    assert_eq!(rect.validate_radius(8), Err(GeometryError::InvalidRadius));
    let line = build(rect, 8, 2).unwrap();
    let expected: Vec<(i128, i128)> = vec![
        (0, 32),
        (8, 8),
        (32, 0),
        (8, 0),
        (32, 8),
        (40, 32),
        (40, 8),
        (32, 32),
        (8, 40),
        (32, 40),
        (8, 32),
        (0, 8),
    ];
    assert_eq!(numerators(&line), expected);
}

#[test]
fn build_at_the_limits_of_the_coordinates() {
    let rect = Rectangle::new(i32::MIN, i32::MIN, u32::MAX, u32::MAX);
    let line = build(rect, u32::MAX, u16::MAX).unwrap();
    let n = u16::MAX as i128;
    assert_eq!(line.scale as i128, n * n);
    assert_eq!(line.points.len(), 4 * 65536);
    let (lo, hi) = (i32::MIN as i128, i32::MIN as i128 + u32::MAX as i128);
    assert_eq!(line.points[0], FinePoint { x: lo * n * n, y: hi * n * n });
    assert_eq!(line.points[65535], FinePoint { x: hi * n * n, y: lo * n * n });
    assert_eq!(line.points[4 * 65536 - 1], FinePoint { x: lo * n * n, y: lo * n * n });
}

#[test]
fn arcs_join_along_the_edges() {
    let rect = Rectangle::new(-20, 15, 300, 120);
    let steps: usize = 6;
    let line = build(rect, 40, steps as u16).unwrap();
    let scale = line.scale as i128;
    let m = steps + 1;
    // top edge
    assert_eq!(line.points[m - 1].y, 15 * scale);
    assert_eq!(line.points[m].y, 15 * scale);
    // right edge
    assert_eq!(line.points[2 * m - 1].x, 280 * scale);
    assert_eq!(line.points[2 * m].x, 280 * scale);
    // bottom edge
    assert_eq!(line.points[3 * m - 1].y, 135 * scale);
    assert_eq!(line.points[3 * m].y, 135 * scale);
    // left edge
    assert_eq!(line.points[4 * m - 1].x, -20 * scale);
    assert_eq!(line.points[0].x, -20 * scale);
}

#[test]
fn default_resolution_is_two_hundred_segments() {
    assert_eq!(rounded_rect::outline::DEFAULT_STEPS, 200);
    let line = build(Rectangle::new(0, 0, 100, 50), 10, rounded_rect::outline::DEFAULT_STEPS).unwrap();
    assert_eq!(line.points.len(), 4 * 201);
}
