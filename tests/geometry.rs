use ballpit::geometry::{Cells, Point, Rect};

fn rect(x: i64, y: i64, w: i64, h: i64) -> Rect {
    Rect::new(x, y, w, h).unwrap()
}

#[test]
fn boundary_points_are_not_inside() {
    let r = rect(10, 20, 30, 40);
    for p in [
        Point { x: 10, y: 20 },
        Point { x: 40, y: 60 },
        Point { x: 25, y: 20 },
        Point { x: 25, y: 60 },
        Point { x: 10, y: 35 },
        Point { x: 40, y: 35 },
    ] {
        assert!(!p.is_in_rect(&r));
    }
    assert!(Point { x: 11, y: 21 }.is_in_rect(&r));
    assert!(Point { x: 39, y: 59 }.is_in_rect(&r));
}

#[test]
fn intersection_is_symmetric() {
    let rs = [
        rect(0, 0, 10, 10),
        rect(5, 5, 10, 10),
        rect(2, 2, 3, 3),
        rect(10, 0, 10, 10),
        rect(-5, 3, 30, 2),
        rect(100, 100, 1, 1),
    ];
    for a in &rs {
        for b in &rs {
            assert_eq!(a.intersects(b), b.intersects(a));
        }
    }
}

#[test]
fn intersection_cases() {
    // Overlap by corners.
    assert!(rect(0, 0, 10, 10).intersects(&rect(5, 5, 10, 10)));
    // Full containment, no corner of the outer one inside the inner one.
    assert!(rect(0, 0, 10, 10).intersects(&rect(2, 2, 3, 3)));
    assert!(rect(2, 2, 3, 3).intersects(&rect(0, 0, 10, 10)));
    // A cross: no corner of either inside the other.
    assert!(rect(-5, 3, 30, 2).intersects(&rect(0, 0, 10, 10)));
    // Touching edges do not intersect.
    assert!(!rect(0, 0, 10, 10).intersects(&rect(10, 0, 10, 10)));
    assert!(!rect(0, 0, 10, 10).intersects(&rect(100, 100, 1, 1)));
}

#[test]
fn split_covers_the_rectangle() {
    for r in [rect(0, 0, 640, 480), rect(3, 7, 11, 5), rect(-4, -4, 1, 1), rect(0, 0, 0, 9)] {
        let (tl, tr, bl, br) = r.split_to_four_cells();
        let area = |q: &Rect| q.w * q.h;
        assert_eq!(area(&tl) + area(&tr) + area(&bl) + area(&br), r.w * r.h);
        for px in r.x..r.x + r.w {
            for py in r.y..r.y + r.h {
                let covers = |q: &Rect| q.x <= px && px < q.x + q.w && q.y <= py && py < q.y + q.h;
                let n = [tl, tr, bl, br].iter().filter(|q| covers(*q)).count();
                assert_eq!(n, 1);
            }
        }
    }
}

#[test]
fn split_of_even_rectangle_gives_equal_quarters() {
    let r = rect(0, 0, 640, 480);
    let (tl, tr, bl, br) = r.split_to_four_cells();
    assert_eq!(tl, rect(0, 0, 320, 240));
    assert_eq!(tr, rect(320, 0, 320, 240));
    assert_eq!(bl, rect(0, 240, 320, 240));
    assert_eq!(br, rect(320, 240, 320, 240));
    assert_eq!(r.top_left(), tl);
    assert_eq!(r.top_right(), tr);
    assert_eq!(r.bottom_left(), bl);
    assert_eq!(r.bottom_right(), br);
}

#[test]
fn split_of_odd_rectangle_gives_the_rest_to_the_right_and_bottom() {
    let (tl, tr, bl, br) = rect(1, 2, 5, 3).split_to_four_cells();
    assert_eq!(tl, rect(1, 2, 2, 1));
    assert_eq!(tr, rect(3, 2, 3, 1));
    assert_eq!(bl, rect(1, 3, 2, 2));
    assert_eq!(br, rect(3, 3, 3, 2));
}

#[test]
fn center_and_quadrant_classification() {
    let r = rect(0, 0, 100, 50);
    assert_eq!(r.center(), Point { x: 50, y: 25 });
    assert_eq!(r.where_is_point_relative_to_center(Point { x: 10, y: 10 }), Cells::TopLeft);
    assert_eq!(r.where_is_point_relative_to_center(Point { x: 60, y: 10 }), Cells::TopRight);
    assert_eq!(r.where_is_point_relative_to_center(Point { x: 10, y: 40 }), Cells::BottomLeft);
    assert_eq!(r.where_is_point_relative_to_center(Point { x: 60, y: 40 }), Cells::BottomRight);
    // On a center line a point stays left or top.
    assert_eq!(r.where_is_point_relative_to_center(Point { x: 50, y: 25 }), Cells::TopLeft);
    assert_eq!(r.where_is_point_relative_to_center(Point { x: 50, y: 40 }), Cells::BottomLeft);
    assert_eq!(r.where_is_point_relative_to_center(Point { x: 60, y: 25 }), Cells::TopRight);
}

#[test]
fn fits_measures_height_upward() {
    let outer = rect(0, 0, 100, 100);
    // Its bottom corners are taken at y - h, which is above the top edge.
    assert!(!rect(10, 10, 20, 20).fits(outer));
    // Anchored at its bottom edge, the same box fits.
    assert!(rect(10, 30, 20, 20).fits(outer));
    assert!(!rect(90, 30, 20, 20).fits(outer));
}

#[test]
fn malformed_rectangles_are_rejected() {
    assert!(Rect::new(0, 0, -1, 5).is_none());
    assert!(Rect::new(0, 0, 5, -1).is_none());
    assert!(Rect::new(i64::MAX, 0, 1, 1).is_none());
    assert_eq!(Rect::new(1, 2, 0, 0), Some(Rect { x: 1, y: 2, w: 0, h: 0 }));
    assert!(rect(0, 0, 10, 10).contains(&rect(0, 0, 10, 10)));
    assert!(!rect(0, 0, 10, 10).contains(&rect(1, 1, 10, 1)));
}

#[test]
fn random_point_stays_away_from_edges() {
    assert_eq!(Point::random_point(640, 480, 0, 0), Point { x: 64, y: 64 });
    assert_eq!(Point::random_point(640, 480, 448, 368), Point { x: 512, y: 432 });
    // One past the range wraps around to its start.
    assert_eq!(Point::random_point(640, 480, 513, 369), Point { x: 64, y: 64 });
    for r in 0..2000u64 {
        let p = Point::random_point(640, 480, r * 7919, r * 104729);
        assert!(64 <= p.x && p.x <= 576);
        assert!(64 <= p.y && p.y <= 432);
    }
}

#[test]
fn random_velocity_has_a_dead_zone() {
    assert_eq!(Point::random_velocity(1, 3, false, true, 0, 2), Point { x: 1, y: -3 });
    assert_eq!(Point::random_velocity(1, 3, true, false, 4, 5), Point { x: -2, y: 3 });
    for r in 0..200u64 {
        let v = Point::random_velocity(1, 3, r % 2 == 0, r % 3 == 0, r, r * 31);
        assert!(1 <= v.x.abs() && v.x.abs() <= 3);
        assert!(1 <= v.y.abs() && v.y.abs() <= 3);
    }
}
