use ballpit::ball::{Ball, Phase};
use ballpit::constants::{COLOSSAL, EXPLODES, FULL, GROWS, SHRINK, TINY};
use ballpit::geometry::{Point, Rect};

fn ball(x: i64, y: i64, vx: i64, vy: i64, size: i64, phase: Phase) -> Ball {
    Ball { position: Point { x, y }, velocity: Point { x: vx, y: vy }, size, phase }
}

#[test]
fn free_flight_moves_by_velocity_and_grows() {
    let mut b = Ball::new(Point { x: 100, y: 100 }, Point { x: 3, y: -2 });
    assert_eq!(b.size, TINY);
    assert_eq!(b.phase, Phase::Growing);
    for t in 1..=10i64 {
        b.advance(640, 480);
        assert_eq!(b.position, Point { x: 100 + 3 * t, y: 100 - 2 * t });
        assert_eq!(b.velocity, Point { x: 3, y: -2 });
        assert_eq!(b.size, TINY + GROWS * t);
    }
}

#[test]
fn rates_of_each_phase() {
    let mut e = ball(300, 200, 0, 0, 20, Phase::Exploding);
    e.advance(640, 480);
    assert_eq!(e.size, 20 + EXPLODES);
    let mut s = ball(300, 200, 0, 0, 78, Phase::Shrinking);
    s.advance(640, 480);
    assert_eq!(s.size, 78 + SHRINK);
    assert_eq!(s.phase, Phase::Shrinking);
}

#[test]
fn bounce_off_the_right_wall() {
    let mut b = ball(631, 240, 3, 1, 6, Phase::Growing);
    b.advance(640, 480);
    assert_eq!(b.velocity, Point { x: 3, y: 1 });
    assert_eq!(b.position, Point { x: 634, y: 241 });
    b.advance(640, 480);
    assert_eq!(b.velocity, Point { x: -3, y: 1 });
    assert_eq!(b.position, Point { x: 631, y: 242 });
}

#[test]
fn bounce_off_the_left_and_top_walls() {
    let mut b = ball(7, 5, -3, -4, 6, Phase::Growing);
    b.advance(640, 480);
    assert_eq!(b.velocity, Point { x: 3, y: 4 });
    assert_eq!(b.position, Point { x: 10, y: 9 });
}

#[test]
fn center_never_leaves_the_arena() {
    let mut b = ball(639, 479, 1000, 1000, 80, Phase::Exploding);
    for _ in 0..20 {
        b.advance(640, 480);
        assert!(0 <= b.position.x && b.position.x <= 640);
        assert!(0 <= b.position.y && b.position.y <= 480);
    }
}

#[test]
fn growing_ball_at_full_starts_exploding() {
    let mut b = ball(300, 200, 0, 0, FULL - 1, Phase::Growing);
    b.advance(640, 480);
    assert_eq!(b.size, FULL);
    assert_eq!(b.phase, Phase::Exploding);
}

#[test]
fn exploding_ball_stops_at_colossal_and_shrinks() {
    let mut b = ball(300, 200, 0, 0, 85, Phase::Exploding);
    b.advance(640, 480);
    assert_eq!(b.size, COLOSSAL);
    assert_eq!(b.phase, Phase::Shrinking);
}

#[test]
fn shrinking_ball_is_removed_at_zero() {
    let mut b = ball(300, 200, 0, 0, 8, Phase::Shrinking);
    b.advance(640, 480);
    assert_eq!(b.phase, Phase::Removed);
    assert!(b.is_removed());
    let before = b;
    b.advance(640, 480);
    assert_eq!(b, before);
}

#[test]
fn whole_lifecycle_of_a_still_ball() {
    let mut b = Ball::new(Point { x: 320, y: 240 }, Point { x: 0, y: 0 });
    let mut phases = vec![b.phase];
    let mut ticks = 0;
    while !b.is_removed() {
        b.advance(640, 480);
        ticks += 1;
        if *phases.last().unwrap() != b.phase {
            phases.push(b.phase);
        }
        if !b.is_removed() {
            assert!(TINY <= b.size && b.size <= COLOSSAL);
        }
    }
    assert_eq!(phases, vec![Phase::Growing, Phase::Exploding, Phase::Shrinking, Phase::Removed]);
    assert_eq!(ticks, 59);
}

#[test]
fn ignite_only_affects_growing_balls() {
    let mut g = ball(1, 1, 0, 0, 10, Phase::Growing);
    g.ignite();
    assert_eq!(g.phase, Phase::Exploding);
    assert_eq!(g.size, 10);
    let mut s = ball(1, 1, 0, 0, 18, Phase::Shrinking);
    s.ignite();
    assert_eq!(s.phase, Phase::Shrinking);
}

#[test]
fn collision_is_circle_overlap() {
    let a = ball(100, 100, 0, 0, 10, Phase::Growing);
    assert!(a.collides_with(&ball(115, 100, 0, 0, 6, Phase::Growing)));
    assert!(!a.collides_with(&ball(116, 100, 0, 0, 6, Phase::Growing)));
    // Boxes overlap at the corner, circles do not.
    assert!(!a.collides_with(&ball(112, 112, 0, 0, 6, Phase::Growing)));
    assert_eq!(a.bounding_box(), Rect { x: 90, y: 90, w: 20, h: 20 });
}
