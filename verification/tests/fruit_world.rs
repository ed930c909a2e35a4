//! The fruit state machine and the per-tick simulation step.

use fruit_pit::fixed::Fixed;
use fruit_pit::fixed::Vec2;
use fruit_pit::fixed::Vec2i;
use fruit_pit::fruit::Fruit;
use fruit_pit::fruit::FruitState;
use fruit_pit::fruit::Rotation;
use fruit_pit::math_helpers::fvec;
use fruit_pit::physics::Velocity;
use fruit_pit::world::rotation_frame_index;
use fruit_pit::world::wall_response;
use fruit_pit::world::State;
use fruit_pit::Input;
use fruit_pit::SETTLE_TICKS;
use fruit_pit::SPAWN_HEIGHT;

const NONE: Input = Input { move_left: false, move_right: false, drop: false };
const LEFT: Input = Input { move_left: true, move_right: false, drop: false };
const RIGHT: Input = Input { move_left: false, move_right: true, drop: false };
const BOTH: Input = Input { move_left: true, move_right: true, drop: false };
const DROP: Input = Input { move_left: false, move_right: false, drop: true };

/// A world with the given fruits, aiming at `aim_x`.
fn world_with(aim_x: i32, fruits: Vec<Fruit>, active: Option<usize>, timer: u32) -> State {
    State {
        cursor_position: Vec2i { x: aim_x, y: 30 },
        fruits,
        active_index: active,
        settle_timer: timer,
    }
}

/// A loose fruit in the pit.
fn loose_fruit(x: i32, y: i32, vel: Vec2, state: FruitState) -> Fruit {
    Fruit {
        real_position: fvec(x, y),
        radius: 8,
        rotation: Rotation { angle: Fixed { raw: 0 }, speed: Fixed { raw: -2880 } },
        state,
        velocity: Velocity(vel),
        collided_with_fruits: Vec::new(),
    }
}

#[test]
fn rotation_frame_wraparound() {
    // One degree before zero and one degree before a full turn both land
    // in the last frame: the index is a Euclidean remainder, never
    // negative.
    assert_eq!(rotation_frame_index(Fixed { raw: -256 }), 31);
    assert_eq!(rotation_frame_index(Fixed::from_int(359)), 31);
    assert_eq!(rotation_frame_index(Fixed::from_int(0)), 0);
    assert_eq!(rotation_frame_index(Fixed::from_int(360)), 0);
    assert_eq!(rotation_frame_index(Fixed::from_int(-360)), 0);
    // One frame is 11.25 degrees wide.
    assert_eq!(rotation_frame_index(Fixed::from_int(11)), 0);
    assert_eq!(rotation_frame_index(Fixed::from_int(12)), 1);
}

#[test]
fn new_fruit_spawns_held_at_rest() {
    let mut world = State::new();
    let index = world.new_fruit(Vec2i { x: 90, y: SPAWN_HEIGHT });
    assert_eq!(index, 0);
    assert_eq!(world.fruits.len(), 1);
    let f = &world.fruits[0];
    assert_eq!(f.real_position.x.raw, 90 * 256);
    assert_eq!(f.real_position.y.raw, 16 * 256);
    assert_eq!(f.radius, 8);
    assert_eq!(f.state, FruitState::Held);
    assert_eq!(f.velocity.0.x.raw, 0);
    assert_eq!(f.velocity.0.y.raw, 0);
    assert_eq!(world.active_index, Some(0));
}

#[test]
fn held_fruit_follows_input_inside_walls() {
    let mut world = State::new();
    world.new_fruit(Vec2i { x: 90, y: SPAWN_HEIGHT });
    world.tick(RIGHT);
    assert_eq!(world.fruits[0].real_position.x.raw, 91 * 256);
    world.tick(LEFT);
    world.tick(LEFT);
    assert_eq!(world.fruits[0].real_position.x.raw, 89 * 256);
    // Both directions at once cancel.
    world.tick(BOTH);
    assert_eq!(world.fruits[0].real_position.x.raw, 89 * 256);
    // A held fruit never feels gravity.
    assert_eq!(world.fruits[0].velocity.0.y.raw, 0);
    assert_eq!(world.fruits[0].real_position.y.raw, 16 * 256);
}

#[test]
fn held_fruit_stops_at_left_wall() {
    let mut world = world_with(
        70,
        vec![loose_fruit(70, 16, Vec2::zero(), FruitState::Held)],
        Some(0),
        SETTLE_TICKS,
    );
    world.tick(LEFT);
    // Wall containment: never nearer the wall than the radius.
    assert_eq!(world.fruits[0].real_position.x.raw, 70 * 256);
    assert_eq!(world.cursor_position.x, 70);
}

#[test]
fn aim_cursor_follows_input() {
    let mut world = State::new();
    assert_eq!(world.cursor_position.x, 90);
    world.tick(RIGHT);
    world.tick(RIGHT);
    world.tick(LEFT);
    assert_eq!(world.cursor_position.x, 91);
    world.tick(BOTH);
    assert_eq!(world.cursor_position.x, 91);
}

#[test]
fn drop_starts_falling_then_gravity_pulls() {
    let mut world = State::new();
    world.new_fruit(Vec2i { x: 90, y: SPAWN_HEIGHT });
    world.tick(DROP);
    // The tick of the drop only changes the state; the fruit rests until
    // the next tick.
    assert_eq!(world.fruits[0].state, FruitState::Falling);
    assert_eq!(world.fruits[0].velocity.0.y.raw, 0);
    assert_eq!(world.fruits[0].real_position.y.raw, 16 * 256);
    world.tick(NONE);
    // One tick of gravity: 0.098 of a unit downward, position follows.
    assert!(world.fruits[0].velocity.0.y.raw > 0);
    assert_eq!(world.fruits[0].velocity.0.y.raw, 25);
    assert_eq!(world.fruits[0].real_position.y.raw, 16 * 256 + 25);
}

#[test]
fn terminal_velocity_caps_the_fall() {
    let mut world = world_with(
        90,
        vec![loose_fruit(100, 50, Vec2 { x: Fixed { raw: 0 }, y: Fixed { raw: 1535 } }, FruitState::Falling)],
        Some(0),
        SETTLE_TICKS,
    );
    world.tick(NONE);
    assert_eq!(world.fruits[0].velocity.0.y.raw, 1536);
    world.tick(NONE);
    // Still capped, never beyond the terminal speed.
    assert_eq!(world.fruits[0].velocity.0.y.raw, 1536);
}

#[test]
fn floor_bounce_reverses_and_damps() {
    let mut world = world_with(
        90,
        vec![loose_fruit(100, 140, fvec(0, 5), FruitState::Falling)],
        Some(0),
        SETTLE_TICKS,
    );
    // First tick: resting depth is still zero, so the fruit sinks in.
    world.tick(NONE);
    assert_eq!(world.fruits[0].velocity.0.y.raw, 5 * 256 + 25);
    assert_eq!(world.fruits[0].real_position.y.raw, 140 * 256 + 1305);
    assert_eq!(world.settle_timer, SETTLE_TICKS);
    // Second tick: the floor is penetrated, the fall turns into a damped
    // upward bounce of at most a quarter of the speed.
    world.tick(NONE);
    let vy = world.fruits[0].velocity.0.y.raw;
    assert!(vy < 0);
    assert_eq!(vy, -332);
    assert!(vy.abs() <= (1330 + 3) / 4);
    // Contact also counts the settling timer down.
    assert_eq!(world.settle_timer, SETTLE_TICKS - 1);
}

#[test]
fn tiny_bounce_snaps_to_rest() {
    // Falling slowly into the floor: the damped bounce falls under the
    // snap threshold and the fruit comes to rest.
    let mut world = world_with(
        90,
        vec![loose_fruit(100, 141, Vec2::zero(), FruitState::Falling)],
        Some(0),
        SETTLE_TICKS,
    );
    world.tick(NONE);
    assert_eq!(world.fruits[0].velocity.0.y.raw, 0);
    assert_eq!(world.fruits[0].real_position.y.raw, 141 * 256);
}

#[test]
fn settling_turns_rolling_and_spawns() {
    // One more tick of floor contact settles the fruit for good, and the
    // spawn pass immediately hands the player the next one.
    let mut world = world_with(
        111,
        vec![loose_fruit(100, 141, Vec2::zero(), FruitState::Falling)],
        Some(0),
        1,
    );
    world.tick(NONE);
    assert_eq!(world.fruits[0].state, FruitState::Rolling);
    assert_eq!(world.fruits.len(), 2);
    assert_eq!(world.settle_timer, SETTLE_TICKS);
    assert_eq!(world.active_index, Some(1));
    let f = &world.fruits[1];
    assert_eq!(f.state, FruitState::Held);
    assert_eq!(f.real_position.x.raw, 111 * 256);
    assert_eq!(f.real_position.y.raw, SPAWN_HEIGHT as i64 * 256);
    assert_eq!(f.velocity.0.x.raw, 0);
    assert_eq!(f.velocity.0.y.raw, 0);
}

#[test]
fn rolling_active_fruit_spawns_next_tick() {
    let mut world = world_with(
        123,
        vec![loose_fruit(100, 140, Vec2::zero(), FruitState::Rolling)],
        Some(0),
        47,
    );
    world.tick(NONE);
    // Exactly one new fruit, held at rest at the aim.
    assert_eq!(world.fruits.len(), 2);
    assert_eq!(world.fruits[1].state, FruitState::Held);
    assert_eq!(world.fruits[1].real_position.x.raw, 123 * 256);
    assert_eq!(world.fruits[1].real_position.y.raw, 16 * 256);
    assert_eq!(world.fruits[1].velocity.0.x.raw, 0);
    assert_eq!(world.fruits[1].velocity.0.y.raw, 0);
    assert_eq!(world.settle_timer, SETTLE_TICKS);
    assert_eq!(world.active_index, Some(1));
    // The settled fruit stays rolling forever.
    for _ in 0..5 {
        world.tick(NONE);
        assert_eq!(world.fruits[0].state, FruitState::Rolling);
    }
}

#[test]
fn overlapping_pair_gets_opposing_impulses() {
    // Two overlapping falling fruits: the pair is resolved once, with an
    // impulse of at most one unit on each, pointing apart along the
    // centre line.
    let mut world = world_with(
        90,
        vec![
            loose_fruit(100, 100, Vec2::zero(), FruitState::Falling),
            loose_fruit(100, 110, Vec2::zero(), FruitState::Falling),
        ],
        Some(1),
        SETTLE_TICKS,
    );
    world.tick(NONE);
    // The upper fruit is pushed up at the clamped impulse of one unit,
    // the lower fruit is pushed down, plus its own tick of gravity.
    assert_eq!(world.fruits[0].velocity.0.y.raw, -256);
    assert_eq!(world.fruits[0].velocity.0.x.raw, 0);
    assert_eq!(world.fruits[1].velocity.0.y.raw, 256 + 25);
    assert_eq!(world.fruits[1].velocity.0.x.raw, 0);
    assert_eq!(world.fruits[0].real_position.y.raw, 100 * 256 - 256);
    assert_eq!(world.fruits[1].real_position.y.raw, 110 * 256 + 256 + 25);
    // The pair was booked exactly once, on the earlier fruit.
    assert_eq!(world.fruits[0].collided_with_fruits, vec![1]);
    assert!(world.fruits[1].collided_with_fruits.is_empty());
}

#[test]
fn wall_response_damps_and_snaps() {
    // Side-wall contact: two units leftward turn into half a unit
    // rightward.
    let hit_left = wall_response(fvec(-2, 0), Some(fvec(1, 0)));
    assert_eq!(hit_left.x.raw, 128);
    assert_eq!(hit_left.y.raw, 0);
    // A bounce that lands under the snap threshold is zeroed.
    let slow = wall_response(Vec2 { x: Fixed { raw: -200 }, y: Fixed { raw: 0 } }, Some(fvec(1, 0)));
    assert_eq!(slow.x.raw, 0);
    // Floor contact rubs off horizontal speed and reverses the fall.
    let hit_floor = wall_response(
        Vec2 { x: Fixed { raw: 256 }, y: Fixed { raw: 1330 } },
        Some(Vec2 { x: Fixed { raw: 0 }, y: Fixed { raw: -1305 } }),
    );
    assert_eq!(hit_floor.x.raw, 251);
    assert_eq!(hit_floor.y.raw, -332);
    // No contact leaves the velocity alone.
    let free = wall_response(fvec(1, 2), None);
    assert_eq!(free.x.raw, 256);
    assert_eq!(free.y.raw, 512);
}

#[test]
fn coincident_fruits_fall_without_correction() {
    // Two fruits on the same centre: the pair is resolved, but with no
    // usable direction no impulse is applied; both just keep falling.
    let mut world = world_with(
        90,
        vec![
            loose_fruit(100, 100, Vec2::zero(), FruitState::Falling),
            loose_fruit(100, 100, Vec2::zero(), FruitState::Falling),
        ],
        Some(1),
        SETTLE_TICKS,
    );
    world.tick(NONE);
    assert_eq!(world.fruits[0].velocity.0.y.raw, 25);
    assert_eq!(world.fruits[1].velocity.0.y.raw, 25);
    assert_eq!(world.fruits[0].collided_with_fruits, vec![1]);
    assert!(world.fruits[1].collided_with_fruits.is_empty());
}

#[test]
fn tandem_fall_is_not_stalled() {
    // Two distant fruits falling with identical velocities have no
    // relative motion: the degenerate zero entry time of their pair is
    // not an approach, so neither fruit is slowed.
    let mut world = world_with(
        90,
        vec![
            loose_fruit(80, 50, fvec(0, 5), FruitState::Falling),
            loose_fruit(150, 50, fvec(0, 5), FruitState::Falling),
        ],
        Some(1),
        SETTLE_TICKS,
    );
    world.tick(NONE);
    assert_eq!(world.fruits[0].velocity.0.y.raw, 5 * 256 + 25);
    assert_eq!(world.fruits[1].velocity.0.y.raw, 5 * 256 + 25);
    assert_eq!(world.fruits[0].real_position.y.raw, 50 * 256 + 5 * 256 + 25);
    assert_eq!(world.fruits[1].real_position.y.raw, 50 * 256 + 5 * 256 + 25);
}

#[test]
fn approaching_pair_advances_to_touching() {
    // A fruit falling fast onto the one below would close the three-unit
    // gap in about six tenths of a tick: both velocities are scaled down
    // to the touching point instead, so the pair ends the tick just in
    // contact, never tunnelled through.
    let mut world = world_with(
        90,
        vec![
            loose_fruit(100, 100, fvec(0, 5), FruitState::Falling),
            loose_fruit(100, 119, Vec2::zero(), FruitState::Falling),
        ],
        Some(1),
        SETTLE_TICKS,
    );
    world.tick(NONE);
    // The upper fruit's post-gravity speed of 1305 raw is scaled by the
    // entry time of 150/256 of a tick.
    assert_eq!(world.fruits[0].velocity.0.y.raw, 764);
    assert_eq!(world.fruits[0].real_position.y.raw, 100 * 256 + 764);
    // The resting fruit is left at rest and only takes its own gravity.
    assert_eq!(world.fruits[1].velocity.0.y.raw, 25);
    // No tunnelling: the pair is not overlapping after the tick.
    assert!(!world.fruits[0].circle().intersects(world.fruits[1].circle()));
}

#[test]
fn control_moves_cursor_and_drops() {
    let mut fruit = loose_fruit(90, 16, Vec2::zero(), FruitState::Held);
    let mut cursor = Vec2i { x: 40, y: 40 };
    fruit.control(LEFT, &mut cursor);
    assert_eq!(cursor.x, 39);
    assert_eq!(fruit.state, FruitState::Held);
    fruit.control(DROP, &mut cursor);
    assert_eq!(cursor.x, 39);
    assert_eq!(fruit.state, FruitState::Falling);
    // Dropping again changes nothing: the state machine never goes back.
    fruit.control(DROP, &mut cursor);
    assert_eq!(fruit.state, FruitState::Falling);
}

#[test]
fn move_and_rotate_integrates_gravity() {
    let mut fruit = loose_fruit(100, 50, fvec(1, 0), FruitState::Falling);
    fruit.move_and_rotate(None);
    assert_eq!(fruit.velocity.0.x.raw, 256);
    assert_eq!(fruit.velocity.0.y.raw, 25);
    assert_eq!(fruit.real_position.x.raw, 101 * 256);
    assert_eq!(fruit.real_position.y.raw, 50 * 256 + 25);
    // A held fruit rests instead.
    let mut held = loose_fruit(100, 50, Vec2::zero(), FruitState::Held);
    held.move_and_rotate(None);
    assert_eq!(held.velocity.0.y.raw, 0);
    assert_eq!(held.real_position.y.raw, 50 * 256);
}

#[test]
fn move_and_rotate_held_follows_input() {
    // A held fruit slides one unit per pressed direction, stays at rest,
    // and never leaves the walls.
    let mut held = loose_fruit(100, 50, Vec2::zero(), FruitState::Held);
    held.move_and_rotate(Some(LEFT));
    assert_eq!(held.real_position.x.raw, 99 * 256);
    assert_eq!(held.velocity.0.x.raw, 0);
    assert_eq!(held.velocity.0.y.raw, 0);
    held.move_and_rotate(Some(RIGHT));
    held.move_and_rotate(Some(RIGHT));
    assert_eq!(held.real_position.x.raw, 101 * 256);
    // Both directions cancel.
    held.move_and_rotate(Some(BOTH));
    assert_eq!(held.real_position.x.raw, 101 * 256);
    // At the wall the slide clamps.
    let mut at_wall = loose_fruit(70, 50, Vec2::zero(), FruitState::Held);
    at_wall.move_and_rotate(Some(LEFT));
    assert_eq!(at_wall.real_position.x.raw, 70 * 256);
    // On the drop signal the fruit starts falling where it stands.
    held.move_and_rotate(Some(DROP));
    assert_eq!(held.state, FruitState::Falling);
    assert_eq!(held.real_position.x.raw, 101 * 256);
    assert_eq!(held.velocity.0.y.raw, 0);
}

#[test]
fn overlapping_pair_separates_over_ticks() {
    // Two settled fruits overlapping side by side on the floor: every
    // tick of overlap pushes them strictly further apart along the
    // centre line, until they no longer intersect.
    let mut world = world_with(
        90,
        vec![
            loose_fruit(110, 140, Vec2::zero(), FruitState::Rolling),
            loose_fruit(120, 140, Vec2::zero(), FruitState::Rolling),
        ],
        None,
        SETTLE_TICKS,
    );
    let mut gap = world.fruits[1].real_position.x.raw - world.fruits[0].real_position.x.raw;
    let mut separated = false;
    for _ in 0..800 {
        let overlapping = world.fruits[0].circle().intersects(world.fruits[1].circle());
        if !overlapping {
            separated = true;
            break;
        }
        world.tick(NONE);
        let new_gap =
            world.fruits[1].real_position.x.raw - world.fruits[0].real_position.x.raw;
        assert!(new_gap > gap);
        gap = new_gap;
    }
    assert!(separated);
}

#[test]
fn positions_stay_inside_the_pit() {
    // Wall containment after many ticks of a full little world.
    let mut world = State::new();
    world.new_fruit(Vec2i { x: 90, y: SPAWN_HEIGHT });
    for n in 0..400u32 {
        let input = Input { move_left: n % 7 == 0, move_right: n % 3 == 0, drop: n % 60 == 1 };
        world.tick(input);
        for f in &world.fruits {
            assert!(256 * (62 + 8) <= f.real_position.x.raw);
            assert!(f.real_position.x.raw <= 256 * (179 - 8));
            assert!(256 * 8 <= f.real_position.y.raw);
            assert!(f.real_position.y.raw <= 256 * (160 - 8));
            assert!(f.velocity.0.x.raw.abs() <= 1536);
            assert!(f.velocity.0.y.raw.abs() <= 1536);
        }
    }
    // The session dropped several fruits and spawned after each settled.
    assert!(world.fruits.len() >= 1);
}
