//! Tests for steering, agent behaviour, the colony and the generator.

use ants::vec2::Vec2;
use ants::marker::{Marker, MarkerType};
use ants::ant::{Ant, Direction};
use ants::colony::Colony;
use ants::rng::SimRng;
use ants::world::World;
use ants::trig::{sin_q, cos_q, atan2_units, wrap_angle};
use ants::{
    FULL_TURN, HALF_TURN, QUARTER_TURN, EIGHTH_TURN, TRIG_SCALE, MAX_RESERVE, MARKER_PERIOD,
    ROTATION_SPEED, DEPOSIT_THRESHOLD, MAX_DT,
};

fn su(units: i64) -> i64 {
    units * 1000
}

#[test]
fn trig_anchor_values() {
    assert_eq!(sin_q(0), 0);
    assert_eq!(sin_q(QUARTER_TURN), TRIG_SCALE);
    assert_eq!(sin_q(HALF_TURN), 0);
    assert_eq!(cos_q(0), TRIG_SCALE);
    assert_eq!(cos_q(HALF_TURN), -TRIG_SCALE);
    assert_eq!(cos_q(QUARTER_TURN), 0);
}

#[test]
fn atan2_axes_and_signs() {
    assert_eq!(atan2_units(0, su(5)), 0);
    assert_eq!(atan2_units(0, -su(5)), HALF_TURN);
    assert_eq!(atan2_units(su(5), 0), QUARTER_TURN);
    assert_eq!(atan2_units(-su(5), 0), -QUARTER_TURN);
    assert!(atan2_units(su(1), su(100)) > 0);
    assert!(atan2_units(-su(1), su(100)) < 0);
}

#[test]
fn wrap_angle_reduces() {
    assert_eq!(wrap_angle(0), 0);
    assert_eq!(wrap_angle(FULL_TURN), 0);
    assert_eq!(wrap_angle(-1), FULL_TURN - 1);
    assert_eq!(wrap_angle(HALF_TURN + FULL_TURN), HALF_TURN);
}

#[test]
fn rng_range_and_determinism() {
    let mut a = SimRng::new(42);
    let mut b = SimRng::new(42);
    for _ in 0..100 {
        let x: i64 = a.gen_range(-10, 10);
        let y: i64 = b.gen_range(-10, 10);
        assert_eq!(x, y);
        assert!((-10..10).contains(&x));
    }
}

#[test]
fn direction_reversal_is_exact_half_turn() {
    let mut d = Direction::new(0, ROTATION_SPEED);
    d.add_now(HALF_TURN);
    assert_eq!(d.angle, HALF_TURN);
    assert_eq!(d.target_angle, HALF_TURN);
    assert_eq!(d.vec, Vec2::new(-TRIG_SCALE, 0));
    d.add_now(HALF_TURN);
    assert_eq!(d.angle, 0);
}

#[test]
fn steering_no_turn_when_aligned() {
    let mut d = Direction::new(1234, ROTATION_SPEED);
    d.update(16);
    assert_eq!(d.angle, 1234);
}

#[test]
fn steering_turns_toward_target() {
    let mut d = Direction::new(0, ROTATION_SPEED);
    d.set_target(QUARTER_TURN);
    d.update(16);
    assert!(d.angle > 0);
    assert!(d.angle < QUARTER_TURN);
}

#[test]
fn boundary_reflection_clamps_and_reverses() {
    let mut rng = SimRng::new(7);
    // Facing exactly the negative x direction, close to the left edge.
    let mut ant = Ant::new(Vec2::new(su(1), su(200)), HALF_TURN, &mut rng);
    ant.update_position(1_000, su(400), su(400));
    assert_eq!(ant.position.x, 0);
    assert_eq!(ant.position.y, su(200));
    // Heading reversed by a half turn: back to angle 0, target snapped too.
    assert_eq!(ant.direction.angle, 0);
    assert_eq!(ant.direction.target_angle, 0);
}

#[test]
fn movement_inside_world_no_reflection() {
    let mut rng = SimRng::new(7);
    let mut ant = Ant::new(Vec2::new(su(200), su(200)), 0, &mut rng);
    ant.update_position(1_000, su(400), su(400));
    // One second at 50 units per second, facing +x.
    assert_eq!(ant.position, Vec2::new(su(250), su(200)));
    assert_eq!(ant.direction.angle, 0);
}

#[test]
fn scenario_deposit_period_tick() {
    // ToFood agent with a full reserve of 2000: after one deposit-period
    // tick a ToHome marker of intensity 2000 * 0.02 = 40 appears near the
    // agent, and the reserve decays to 2000 * 0.98 = 1960.
    let mut rng = SimRng::new(1);
    let mut world = World::new(400, 400);
    let mut ant = Ant::new(Vec2::new(su(200), su(200)), 0, &mut rng);
    assert_eq!(ant.phase, MarkerType::ToFood);
    assert_eq!(ant.reserve, MAX_RESERVE);
    ant.last_marker = MARKER_PERIOD;
    ant.last_direction_update = 0;
    ant.update(16, &mut world, &mut rng);
    assert_eq!(ant.reserve, MAX_RESERVE * 98 / 100);
    assert_eq!(ant.reserve, 1_960_000);
    let seen = world.sense(ant.position, MarkerType::ToHome);
    assert_eq!(seen.len(), 1);
    assert_eq!(seen[0].intensity, 40_000);
    assert!(!seen[0].permanent);
    // The followed (ToFood) grid was never written.
    assert_eq!(world.markers_of(MarkerType::ToFood).len(), 0);
}

#[test]
fn deposit_channel_is_opposite_of_phase() {
    let mut rng = SimRng::new(3);
    let mut world = World::new(400, 400);
    let mut ant = Ant::new(Vec2::new(su(100), su(100)), 0, &mut rng);
    ant.add_marker(&mut world);
    assert_eq!(world.markers_of(MarkerType::ToFood).len(), 0);
    assert_eq!(world.markers_of(MarkerType::ToHome).len(), 1);
    ant.phase = MarkerType::ToHome;
    ant.add_marker(&mut world);
    assert_eq!(world.markers_of(MarkerType::ToFood).len(), 1);
    assert_eq!(world.markers_of(MarkerType::ToHome).len(), 1);
    // Reserve decays multiplicatively across deposits; each marker's
    // intensity is 2% of the reserve at deposit time.
    assert_eq!(ant.reserve, 1_920_800);
    assert_eq!(world.markers_of(MarkerType::ToFood)[0].intensity, 39_200);
    assert_eq!(world.markers_of(MarkerType::ToHome)[0].intensity, 40_000);
}

#[test]
fn no_deposit_below_threshold() {
    let mut rng = SimRng::new(3);
    let mut world = World::new(400, 400);
    let mut ant = Ant::new(Vec2::new(su(100), su(100)), 0, &mut rng);
    ant.reserve = DEPOSIT_THRESHOLD;
    ant.add_marker(&mut world);
    assert_eq!(world.markers_of(MarkerType::ToHome).len(), 0);
    assert_eq!(ant.reserve, DEPOSIT_THRESHOLD);
}

#[test]
fn scenario_target_points_at_marker_ahead() {
    // Agent facing angle 0 with a single ToFood marker directly ahead,
    // inside the detection radius: after one direction update the target
    // angle points at the marker, exactly 0 here.
    let mut rng = SimRng::new(5);
    let mut world = World::new(400, 400);
    let mut ant = Ant::new(Vec2::new(su(200), su(200)), 1000, &mut rng);
    assert_eq!(ant.direction.target_angle, 1000);
    world.add_marker(Marker::new(Vec2::new(su(220), su(200)), MarkerType::ToFood, 10_000, false));
    ant.find_marker(&world);
    assert_eq!(ant.direction.target_angle, 0);
}

#[test]
fn target_sign_matches_vertical_offset() {
    let mut rng = SimRng::new(5);
    let mut world = World::new(400, 400);
    // Marker ahead and above: positive (counter-clockwise) target angle.
    let mut up = Ant::new(Vec2::new(su(200), su(200)), 0, &mut rng);
    world.add_marker(Marker::new(Vec2::new(su(220), su(205)), MarkerType::ToFood, 10_000, false));
    up.find_marker(&world);
    assert!(up.direction.target_angle > 0 && up.direction.target_angle < HALF_TURN);

    // Marker ahead and below: the mirrored angle, wrapped into the upper
    // half of the turn.
    let mut world2 = World::new(400, 400);
    let mut down = Ant::new(Vec2::new(su(200), su(200)), 0, &mut rng);
    world2.add_marker(Marker::new(Vec2::new(su(220), su(195)), MarkerType::ToFood, 10_000, false));
    down.find_marker(&world2);
    assert_eq!(up.direction.target_angle + down.direction.target_angle, FULL_TURN);
}

#[test]
fn markers_behind_are_ignored() {
    let mut rng = SimRng::new(5);
    let mut world = World::new(400, 400);
    let mut ant = Ant::new(Vec2::new(su(200), su(200)), 0, &mut rng);
    let before = ant.direction.target_angle;
    // Directly behind the agent (facing +x), inside the detection radius.
    world.add_marker(Marker::new(Vec2::new(su(180), su(200)), MarkerType::ToFood, 10_000, false));
    ant.find_marker(&world);
    assert_eq!(ant.direction.target_angle, before);
}

#[test]
fn food_pickup_flips_phase_and_refills_reserve() {
    let mut rng = SimRng::new(9);
    let mut world = World::new(400, 400);
    world.add_food(ants::food::Food::new(Vec2::new(su(200), su(200)), su(4), 5_000));
    let mut ant = Ant::new(Vec2::new(su(200), su(200)), 0, &mut rng);
    ant.reserve = 500_000;
    ant.check_food(&mut world);
    assert_eq!(ant.phase, MarkerType::ToHome);
    assert_eq!(ant.reserve, MAX_RESERVE);
    assert_eq!(ant.direction.angle, HALF_TURN);
}

#[test]
fn colony_arrival_flips_tohome_agent() {
    let mut rng = SimRng::new(11);
    let mut ant = Ant::new(Vec2::new(su(100), su(100)), 0, &mut rng);
    ant.phase = MarkerType::ToHome;
    ant.reserve = 100_000;
    // Within the 10-unit arrival radius.
    ant.check_colony(Vec2::new(su(105), su(100)));
    assert_eq!(ant.phase, MarkerType::ToFood);
    assert_eq!(ant.reserve, MAX_RESERVE);
    assert_eq!(ant.direction.angle, HALF_TURN);
    // Far away: nothing happens.
    let mut far = Ant::new(Vec2::new(su(100), su(100)), 0, &mut rng);
    far.phase = MarkerType::ToHome;
    far.reserve = 100_000;
    far.check_colony(Vec2::new(su(300), su(300)));
    assert_eq!(far.phase, MarkerType::ToHome);
    assert_eq!(far.reserve, 100_000);
}

#[test]
fn colony_population_fixed_and_reserve_bounded() {
    let mut rng = SimRng::new(13);
    let mut world = World::new(400, 400);
    world.add_food(ants::food::Food::new(Vec2::new(su(300), su(200)), su(4), 100_000));
    let mut colony = Colony::new(Vec2::new(su(120), su(240)), 32, &mut rng);
    assert_eq!(colony.ants.len(), 32);
    for _ in 0..50 {
        colony.update(16, &mut world, &mut rng);
        world.update(16);
    }
    assert_eq!(colony.ants.len(), 32);
    assert_eq!(colony.position, Vec2::new(su(120), su(240)));
    for a in colony.ants.iter() {
        assert!(a.reserve >= 0 && a.reserve <= MAX_RESERVE);
        assert!(a.position.x >= 0 && a.position.x <= su(400));
        assert!(a.position.y >= 0 && a.position.y <= su(400));
    }
}

#[test]
fn frame_delta_cap_accepted() {
    let mut rng = SimRng::new(17);
    let mut world = World::new(400, 400);
    let mut colony = Colony::new(Vec2::new(su(200), su(200)), 4, &mut rng);
    colony.update(MAX_DT, &mut world, &mut rng);
    world.update(MAX_DT);
    assert_eq!(colony.ants.len(), 4);
}

#[test]
fn corner_bounce_clamps_both_axes() {
    let mut rng = SimRng::new(19);
    // Facing down-left into the world corner: both axes are violated,
    // both coordinates clamp to their edges, and the two half-turn
    // reversals cancel into the original heading.
    let start_angle = HALF_TURN + QUARTER_TURN / 2;
    let mut ant = Ant::new(Vec2::new(su(2), su(2)), start_angle, &mut rng);
    ant.update_position(1_000, su(400), su(400));
    assert_eq!(ant.position, Vec2::new(0, 0));
    assert_eq!(ant.direction.angle, start_angle);
    assert_eq!(ant.direction.target_angle, start_angle);
}

#[test]
fn diagonal_speed_within_limit() {
    let mut rng = SimRng::new(23);
    // Heading an eighth of a turn: the raw trig pair overshoots the unit
    // circle there, and the capped facing vector keeps one second of
    // movement within 50 world units.
    let mut ant = Ant::new(Vec2::new(su(100), su(100)), EIGHTH_TURN, &mut rng);
    ant.update_position(1_000, su(400), su(400));
    let dx: i64 = ant.position.x - su(100);
    let dy: i64 = ant.position.y - su(100);
    assert!(dx > 0 && dy > 0);
    assert!(dx * dx + dy * dy <= su(50) * su(50));
}

#[test]
fn turn_rate_never_exceeded() {
    // One integration step turns at most rotation_speed * dt worth of
    // angle, whatever the target is.
    let bound = ROTATION_SPEED * 16 * ants::UNITS_PER_RADIAN / 1000;
    for target in [QUARTER_TURN, HALF_TURN, HALF_TURN + QUARTER_TURN] {
        let mut d = Direction::new(0, ROTATION_SPEED);
        d.set_target(target);
        d.update(16);
        let turned = if d.angle > HALF_TURN { FULL_TURN - d.angle } else { d.angle };
        assert!(turned <= bound);
    }
}
