//! Circles against walls and against each other.

use fruit_pit::fixed::Fixed;
use fruit_pit::fixed::Vec2;
use fruit_pit::math_helpers::fvec;
use fruit_pit::physics::Ball;
use fruit_pit::physics::Circle;
use fruit_pit::physics::Colliding;
use fruit_pit::physics::CollisionDirection;
use fruit_pit::physics::MovingCircle;
use fruit_pit::physics::two_circle_interpolate;
use fruit_pit::physics::Velocity;
use fruit_pit::physics::Wall;
use fruit_pit::physics::WallDirectionHorizontal;
use fruit_pit::physics::WallDirectionVertical;

fn still_circle(x: i32, y: i32, radius: i32) -> Circle {
    Circle { position: fvec(x, y), radius, velocity: Velocity(Vec2::zero()) }
}

#[test]
fn floor_detects_penetration() {
    // Sitting exactly on the floor is not a penetration.
    let touching = still_circle(100, 140, 8);
    assert_eq!(touching.in_wall(Wall::Vertical(148, WallDirectionVertical::Bottom)), None);
    // Five units past the floor pushes straight up by five.
    let sunk = still_circle(100, 145, 8);
    let nudge = sunk.in_wall(Wall::Vertical(148, WallDirectionVertical::Bottom)).unwrap();
    assert_eq!(nudge.x.raw, 0);
    assert_eq!(nudge.y.raw, -5 * 256);
}

#[test]
fn side_walls_push_back_inside() {
    let left = still_circle(65, 100, 8);
    let nudge = left.in_wall(Wall::Horizontal(62, WallDirectionHorizontal::Left)).unwrap();
    assert_eq!(nudge.x.raw, 5 * 256);
    assert_eq!(nudge.y.raw, 0);
    let right = still_circle(175, 100, 8);
    let nudge = right.in_wall(Wall::Horizontal(179, WallDirectionHorizontal::Right)).unwrap();
    assert_eq!(nudge.x.raw, -4 * 256);
    assert_eq!(nudge.y.raw, 0);
    // No top wall ever pushes back.
    let high = still_circle(100, -50, 8);
    assert_eq!(high.in_wall(Wall::Vertical(0, WallDirectionVertical::Top)), None);
}

#[test]
fn playfield_checks_floor_first() {
    // This circle penetrates both the floor and the left wall; the floor
    // correction wins and the corrections are not summed.
    let corner = still_circle(65, 145, 8);
    let nudge = corner.in_playfield().unwrap();
    assert_eq!(nudge.x.raw, 0);
    assert_eq!(nudge.y.raw, -5 * 256);
    // Fully inside: no correction.
    assert_eq!(still_circle(100, 100, 8).in_playfield(), None);
}

#[test]
fn intersects_is_overlap() {
    let a = still_circle(100, 100, 8);
    assert!(a.intersects(still_circle(100, 110, 8)));
    assert!(!a.intersects(still_circle(100, 120, 8)));
    // Touching exactly at distance 16 is not an overlap.
    assert!(!a.intersects(still_circle(100, 116, 8)));
}

#[test]
fn intersection_gives_separation_vector() {
    let a = still_circle(10, 0, 8);
    let b = still_circle(0, 0, 8);
    // Centres 10 apart, touching distance 16: six units of overlap,
    // pointing from b toward a.
    let v = a.intersection(b).unwrap();
    assert_eq!(v.x.raw, 6 * 256);
    assert_eq!(v.y.raw, 0);
    assert_eq!(b.intersection(a).unwrap().x.raw, -6 * 256);
    assert_eq!(a.intersection(still_circle(30, 0, 8)), None);
}

#[test]
fn intersection_at_coincident_centres_is_zero() {
    // Two circles on the same centre overlap fully, but there is no
    // direction to separate them along: the translation is zero, not a
    // fault.
    let a = still_circle(100, 100, 8);
    let v = a.intersection(still_circle(100, 100, 8)).unwrap();
    assert_eq!(v.x.raw, 0);
    assert_eq!(v.y.raw, 0);
}

#[test]
fn time_to_collision_head_on() {
    // Two unit circles four apart, one rolling at the other at speed one:
    // the gap of two closes in exactly two ticks.
    let a = Ball::from_circle(Circle {
        position: fvec(0, 0),
        radius: 1,
        velocity: Velocity(fvec(1, 0)),
    });
    let b = Ball::from_circle(Circle {
        position: fvec(4, 0),
        radius: 1,
        velocity: Velocity(Vec2::zero()),
    });
    assert_eq!(a.time_to_collision(&b).raw, 2 * 256);
    assert_eq!(b.time_to_collision(&a).raw, 2 * 256);
}

#[test]
fn time_to_collision_no_relative_motion() {
    let a = Ball::from_circle(still_circle(0, 0, 1));
    let b = Ball::from_circle(still_circle(4, 0, 1));
    assert_eq!(a.time_to_collision(&b).raw, 0);
}

#[test]
fn time_to_collision_overlapping_is_negative() {
    // Already overlapping and still approaching: the entry time lies in
    // the past.
    let a = Ball::from_circle(Circle {
        position: fvec(0, 0),
        radius: 8,
        velocity: Velocity(fvec(1, 0)),
    });
    let b = Ball::from_circle(still_circle(10, 0, 8));
    assert!(a.time_to_collision(&b).raw < 0);
}

#[test]
fn two_circle_interpolate_head_on() {
    let mut a = MovingCircle::new(still_circle(0, 0, 1));
    a.after.1 = Velocity(fvec(1, 0));
    let b = MovingCircle::new(still_circle(4, 0, 1));
    // The entry-time root: the gap of two closes at speed one in exactly
    // two ticks.
    assert_eq!(two_circle_interpolate(a, b).raw, 2 * 256);
}

#[test]
fn two_circle_interpolate_overlapping_is_negative() {
    // Circles of radius eight, ten apart and drifting apart at speed
    // one: they already overlap, and the signed entry time lies 26 ticks
    // in the past.
    let a = MovingCircle::new(still_circle(0, 0, 8));
    let mut b = MovingCircle::new(still_circle(10, 0, 8));
    b.after.1 = Velocity(fvec(1, 0));
    assert_eq!(two_circle_interpolate(a, b).raw, -26 * 256);
}

#[test]
fn two_circle_interpolate_no_relative_motion() {
    let a = MovingCircle::new(still_circle(0, 0, 1));
    let b = MovingCircle::new(still_circle(4, 0, 1));
    assert_eq!(two_circle_interpolate(a, b).raw, 0);
}

#[test]
fn moving_circle_before_after_movement() {
    let mut m = MovingCircle::new(still_circle(10, 20, 8));
    m.after = (fvec(1, 0), Velocity(fvec(0, 2)));
    assert_eq!(m.before().position.x.raw, 10 * 256);
    let after = m.after();
    assert_eq!(after.position.x.raw, 11 * 256);
    assert_eq!(after.position.y.raw, 22 * 256);
    assert_eq!(after.radius, 0);
    let moved = m.movement();
    assert_eq!(moved.x.raw, 256);
    assert_eq!(moved.y.raw, 512);
}

#[test]
fn colliding_accumulates_directions() {
    let mut c = Colliding { up: false, down: false, left: false, right: false };
    c.add(CollisionDirection::Down);
    c.add(CollisionDirection::Left);
    assert!(c.down && c.left && !c.up && !c.right);
    c.add(CollisionDirection::Up);
    c.add(CollisionDirection::Right);
    assert!(c.up && c.down && c.left && c.right);
}

#[test]
fn ball_from_circle_copies_fields() {
    let c = Circle { position: fvec(7, 9), radius: 8, velocity: Velocity(fvec(1, -2)) };
    let b = Ball::from_circle(c);
    assert_eq!(b.x.raw, 7 * 256);
    assert_eq!(b.y.raw, 9 * 256);
    assert_eq!(b.xvel.raw, 256);
    assert_eq!(b.yvel.raw, -512);
    assert_eq!(b.radius.raw, 8 * 256);
}
