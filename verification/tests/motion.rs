use combat_core::components::{Ammo, Hitbox, Input, Vehicle, VehicleType, Weapon};
use combat_core::cvars::MovementStats;
use combat_core::fixed::{ONE, TAU};
use combat_core::kinematics::{accel_decel, turning};
use combat_core::map::TileMap;
use combat_core::systems::vehicle_movement::{hits_map, move_vehicle};
use combat_core::trig::Trig;
use combat_core::vec2::Vec2;

const TILE: i64 = 64 * ONE;

fn table(slots: usize) -> Trig {
    let mut cos = Vec::new();
    let mut sin = Vec::new();
    for i in 0..slots {
        let angle = (i as f64) * std::f64::consts::PI * 2.0 / (slots as f64);
        cos.push((angle.cos() * 1_000_000.0).round() as i64);
        sin.push((angle.sin() * 1_000_000.0).round() as i64);
    }
    Trig::new(cos, sin).unwrap()
}

fn stats() -> MovementStats {
    MovementStats {
        turn_rate_max: ONE / 2,
        turn_rate_increase: 4 * ONE,
        turn_rate_friction_const: ONE,
        turn_rate_retain: ONE / 2,
        turn_effectiveness: 0,
        accel_forward: 10 * ONE,
        friction_const: 2 * ONE,
        speed_retain: ONE / 2,
        speed_max: 3 * ONE / 2,
    }
}

fn coasting() -> MovementStats {
    MovementStats {
        turn_rate_max: 10 * ONE,
        turn_rate_increase: 0,
        turn_rate_friction_const: 0,
        turn_rate_retain: ONE,
        turn_effectiveness: ONE,
        accel_forward: 0,
        friction_const: 0,
        speed_retain: ONE,
        speed_max: 1_000 * ONE,
    }
}

fn vehicle(pos: Vec2) -> Vehicle {
    Vehicle {
        veh_type: VehicleType::Tank,
        destroyed: false,
        cur_weapon: Weapon::Mg,
        turret_angle: 0,
        ammos: [Ammo::Loaded(0, 10); 7],
        pos,
        vel: Vec2::zero(),
        angle: 0,
        turn_rate: 0,
        hitbox: Hitbox { mins: Vec2::new(-10 * ONE, -5 * ONE), maxs: Vec2::new(10 * ONE, 5 * ONE) },
        input: Input::empty(),
    }
}

/// Ten by ten tiles, open but for the third column.
fn walled_map() -> TileMap {
    let mut row = vec![false; 10];
    row[2] = true;
    TileMap::new(vec![row; 10], TILE).unwrap()
}

fn held(right: bool, left: bool, up: bool, down: bool) -> Input {
    let mut input = Input::empty();
    input.right = right;
    input.left = left;
    input.up = up;
    input.down = down;
    input
}

#[test]
fn steering_builds_turn_rate_against_friction_up_to_the_limit() {
    let trig = table(4096);
    let mut vel = Vec2::new(3 * ONE, 0);
    let mut turn_rate = 0;
    let dt = ONE / 2;
    // pushed to 2, slowed to 1.5, half of it retained, limited to 0.5
    let angle = turning(&stats(), &trig, &mut vel, ONE, &mut turn_rate, &held(true, false, false, false), dt);
    assert_eq!(turn_rate, ONE / 2);
    assert_eq!(angle, ONE + ONE / 4);
    assert_eq!(vel, Vec2::new(3 * ONE, 0));

    let mut turn_rate = 0;
    let angle = turning(&stats(), &trig, &mut vel, ONE, &mut turn_rate, &held(false, true, false, false), dt);
    assert_eq!(turn_rate, -ONE / 2);
    assert_eq!(angle, ONE - ONE / 4);
}

#[test]
fn constant_friction_does_not_reverse_a_turn() {
    let trig = table(4096);
    let mut vel = Vec2::zero();
    let mut loose = stats();
    loose.turn_rate_retain = ONE;
    loose.turn_rate_max = 10 * ONE;
    let mut turn_rate = ONE / 4;
    // friction would take off 0.5, but the turn rate stops at zero
    let angle = turning(&loose, &trig, &mut vel, 5, &mut turn_rate, &Input::empty(), ONE / 2);
    assert_eq!(turn_rate, 0);
    assert_eq!(angle, 5);
    let mut turn_rate = -3 * ONE;
    turning(&loose, &trig, &mut vel, 5, &mut turn_rate, &Input::empty(), ONE / 2);
    assert_eq!(turn_rate, -3 * ONE + ONE / 2);
}

#[test]
fn a_turn_steers_the_velocity_by_its_effective_share() {
    let trig = table(4);
    let mut vel = Vec2::new(2 * ONE, 0);
    let mut turn_rate = (TAU + 3) / 4 + 1;
    // over one second the body turns a quarter turn and a bit; all of it steers
    let angle = turning(&coasting(), &trig, &mut vel, 0, &mut turn_rate, &Input::empty(), ONE);
    assert_eq!(turn_rate, (TAU + 3) / 4 + 1);
    assert_eq!(angle, (TAU + 3) / 4 + 1);
    assert_eq!(vel, Vec2::new(0, 2 * ONE));
    // with no effect on the velocity the heading turns alone
    let mut straight = coasting();
    straight.turn_effectiveness = 0;
    let mut vel = Vec2::new(2 * ONE, 0);
    let angle = turning(&straight, &trig, &mut vel, 0, &mut turn_rate, &Input::empty(), ONE);
    assert_eq!(angle, (TAU + 3) / 4 + 1);
    assert_eq!(vel, Vec2::new(2 * ONE, 0));
}

#[test]
fn the_heading_stays_within_one_turn() {
    let trig = table(64);
    let mut fast = coasting();
    fast.turn_rate_max = i64::MAX;
    for start in [0, 1, TAU - 1, TAU / 2] {
        for rate in [0, 1, -1, 5 * ONE, -5 * ONE, 1_000_000 * ONE, -1_000_000 * ONE, i64::MAX, i64::MIN] {
            for dt in [0, 1, ONE / 60, ONE, 1_000 * ONE] {
                let mut vel = Vec2::new(ONE, ONE);
                let mut turn_rate = rate;
                let angle = turning(&fast, &trig, &mut vel, start, &mut turn_rate, &Input::empty(), dt);
                assert!(0 <= angle && angle < TAU);
            }
        }
    }
    let mut vel = Vec2::zero();
    let mut turn_rate = -ONE;
    assert_eq!(turning(&coasting(), &trig, &mut vel, 0, &mut turn_rate, &Input::empty(), ONE), TAU - ONE);
}

#[test]
fn throttle_friction_and_the_speed_cap() {
    let trig = table(4096);
    let dt = ONE / 2;
    let mut vel = Vec2::zero();
    // pushed to 5, constant friction takes 1, half of 4 is retained, the cap leaves 1.5
    accel_decel(&stats(), &trig, &mut vel, 0, &held(false, false, true, false), dt);
    assert_eq!(vel, Vec2::new(3 * ONE / 2, 0));

    let mut roomy = stats();
    roomy.speed_max = 100 * ONE;
    let mut vel = Vec2::zero();
    accel_decel(&roomy, &trig, &mut vel, 0, &held(false, false, true, false), dt);
    assert_eq!(vel, Vec2::new(2 * ONE, 0));
    let mut vel = Vec2::zero();
    accel_decel(&roomy, &trig, &mut vel, 0, &held(false, false, false, true), dt);
    assert_eq!(vel, Vec2::new(-2 * ONE, 0));
    // both controls cancel out
    let mut vel = Vec2::new(0, 30 * ONE);
    accel_decel(&roomy, &trig, &mut vel, 0, &held(false, false, true, true), dt);
    assert_eq!(vel, Vec2::new(0, 29 * ONE / 2));
}

#[test]
fn constant_drag_does_not_reverse_the_motion() {
    let trig = table(4096);
    let mut sticky = stats();
    sticky.friction_const = 100 * ONE;
    sticky.speed_retain = ONE;
    let mut vel = Vec2::new(3 * ONE, -4 * ONE);
    accel_decel(&sticky, &trig, &mut vel, 0, &Input::empty(), ONE);
    assert_eq!(vel, Vec2::zero());
    // a body at rest stays at rest
    accel_decel(&sticky, &trig, &mut vel, 0, &Input::empty(), ONE);
    assert_eq!(vel, Vec2::zero());
}

#[test]
fn speed_never_exceeds_the_cap() {
    let trig = table(256);
    let values = [0, 1, -1, ONE, -ONE, 37 * ONE, -1_000 * ONE, i64::MAX, i64::MIN];
    let inputs = [Input::empty(), held(false, false, true, false), held(false, false, false, true)];
    let mut checked = 0;
    for &x in &values {
        for &y in &values {
            for &retain in &[0, ONE / 2, ONE, 3 * ONE, -ONE, i64::MAX] {
                for &speed_max in &[0, 1, ONE, 250 * ONE, i64::MAX] {
                    for &dt in &[0, ONE / 60, ONE, 50 * ONE] {
                        for input in &inputs {
                            let stats = MovementStats {
                                turn_rate_max: ONE,
                                turn_rate_increase: ONE,
                                turn_rate_friction_const: ONE,
                                turn_rate_retain: ONE,
                                turn_effectiveness: ONE,
                                accel_forward: x / 3,
                                friction_const: y / 5,
                                speed_retain: retain,
                                speed_max,
                            };
                            let mut vel = Vec2::new(x, y);
                            accel_decel(&stats, &trig, &mut vel, x, input, dt);
                            let cap = (speed_max as u128) * (speed_max as u128);
                            assert!(vel.length_squared() <= cap);
                            checked += 1;
                        }
                    }
                }
            }
        }
    }
    assert_eq!(checked, 9 * 9 * 6 * 5 * 4 * 3);
}

#[test]
fn only_the_corners_of_a_hitbox_are_tested() {
    let map = walled_map();
    let hitbox = Hitbox { mins: Vec2::new(-10 * ONE, -5 * ONE), maxs: Vec2::new(10 * ONE, 5 * ONE) };
    let ahead = Vec2::new(ONE, 0);
    assert!(!hits_map(&map, &hitbox, Vec2::new(TILE + 32 * ONE, 32 * ONE), ahead));
    // the front corners reach into the wall
    assert!(hits_map(&map, &hitbox, Vec2::new(2 * TILE - 5 * ONE, 32 * ONE), ahead));
    // a long hitbox straddles the wall with no corner in it
    let long = Hitbox { mins: Vec2::new(-80 * ONE, -5 * ONE), maxs: Vec2::new(80 * ONE, 5 * ONE) };
    assert!(!hits_map(&map, &long, Vec2::new(2 * TILE + 32 * ONE, 32 * ONE), ahead));
    // at the left edge a corner leaves the map
    assert!(hits_map(&map, &hitbox, Vec2::new(5 * ONE, 32 * ONE), ahead));
}

#[test]
fn a_free_vehicle_turns_and_moves() {
    let trig = table(4096);
    let map = walled_map();
    let mut v = vehicle(Vec2::new(5 * TILE, 5 * TILE));
    v.input = held(true, false, true, false);
    let mut roomy = stats();
    roomy.speed_max = 100 * ONE;
    move_vehicle(&roomy, &trig, &map, &mut v, ONE / 2);
    assert_eq!(v.turn_rate, ONE / 2);
    assert_eq!(v.angle, ONE / 4);
    // the push goes along the new heading: slot 162 of 4096
    let dir = trig.direction(ONE / 4);
    assert_eq!(dir, Vec2::new(969_281, 245_955));
    // pushed to (4846405, 1229775), a speed of 5; friction takes 1, half is retained
    assert_eq!(v.vel, Vec2::new(1_938_562, 491_910));
    assert_eq!(v.pos, Vec2::new(5 * TILE + 969_281, 5 * TILE + 245_955));
}

#[test]
fn a_blocked_move_bounces_the_velocity_back() {
    let trig = table(4096);
    let map = walled_map();
    let start = Vec2::new(2 * TILE - 11 * ONE, 32 * ONE);
    let mut v = vehicle(start);
    v.vel = Vec2::new(8 * ONE, 0);
    move_vehicle(&coasting(), &trig, &map, &mut v, ONE);
    assert_eq!(v.pos, start);
    assert_eq!(v.vel, Vec2::new(-4 * ONE, 0));
    assert_eq!(v.angle, 0);
    assert_eq!(v.turn_rate, 0);
    // on the way back nothing is in the way
    move_vehicle(&coasting(), &trig, &map, &mut v, ONE);
    assert_eq!(v.pos, Vec2::new(2 * TILE - 15 * ONE, 32 * ONE));
    assert_eq!(v.vel, Vec2::new(-4 * ONE, 0));
}

#[test]
fn a_blocked_turn_bounces_the_turn_rate_back() {
    let trig = table(4);
    let map = walled_map();
    // heading along x the vehicle fits beside the wall; turned a quarter, its long side does not
    let start = Vec2::new(2 * TILE - 8 * ONE, 32 * ONE);
    let mut v = vehicle(start);
    v.hitbox = Hitbox { mins: Vec2::new(-5 * ONE, -10 * ONE), maxs: Vec2::new(5 * ONE, 10 * ONE) };
    v.turn_rate = (TAU + 3) / 4 + 1;
    let mut still = coasting();
    still.turn_effectiveness = 0;
    move_vehicle(&still, &trig, &map, &mut v, ONE);
    assert_eq!(v.angle, 0);
    assert_eq!(v.turn_rate, -(((TAU + 3) / 4 + 1) / 2));
    assert_eq!(v.pos, start);
    assert_eq!(v.vel, Vec2::zero());
}

#[test]
fn a_vehicle_shut_in_on_all_sides_keeps_heading_and_position() {
    let trig = table(4096);
    // the whole map is one tile, and every corner of the hitbox lies outside it
    let map = TileMap::new(vec![vec![false]], TILE).unwrap();
    let start = Vec2::new(32 * ONE, 32 * ONE);
    let mut v = vehicle(start);
    v.hitbox = Hitbox { mins: Vec2::new(100 * ONE, 100 * ONE), maxs: Vec2::new(200 * ONE, 200 * ONE) };
    v.angle = ONE;
    v.turn_rate = 6 * ONE;
    v.vel = Vec2::new(10 * ONE, -6 * ONE);
    let mut still = coasting();
    still.turn_effectiveness = 0;
    move_vehicle(&still, &trig, &map, &mut v, ONE / 10);
    assert_eq!(v.angle, ONE);
    assert_eq!(v.turn_rate, -3 * ONE);
    assert_eq!(v.pos, start);
    assert_eq!(v.vel, Vec2::new(-5 * ONE, 3 * ONE));
}

#[test]
fn a_destroyed_vehicle_does_not_move() {
    let trig = table(4096);
    let map = walled_map();
    let mut v = vehicle(Vec2::new(5 * TILE, 5 * TILE));
    v.destroyed = true;
    v.vel = Vec2::new(8 * ONE, 0);
    v.turn_rate = ONE;
    v.input = held(true, false, true, false);
    let before = v;
    move_vehicle(&stats(), &trig, &map, &mut v, ONE);
    assert_eq!(v, before);
}

fn fixed(x: f64) -> i64 {
    (x * 1_000_000.0).round() as i64
}

fn float(x: i64) -> f64 {
    x as f64 / 1_000_000.0
}

#[test]
fn fixed_point_motion_follows_the_float_formulas() {
    let trig = table(65_536);
    let turn_rate_friction_linear: f64 = 0.7;
    let friction_linear: f64 = 0.4;
    let (turn_rate_max, turn_rate_increase, turn_rate_friction_const) = (3.0f64, 8.0f64, 0.5f64);
    let (turn_effectiveness, accel_forward, friction_const, speed_max) = (0.5f64, 600.0f64, 11.0f64, 250.0f64);
    let tau = 2.0 * std::f64::consts::PI;

    // the float state
    let (mut vx, mut vy, mut angle, mut rate) = (40.0f64, -25.0f64, 1.0f64, 0.3f64);
    // the fixed-point state
    let mut vel = Vec2::new(fixed(vx), fixed(vy));
    let mut heading = fixed(angle);
    let mut turn_rate = fixed(rate);

    let controls = [(1.0, 1.0), (1.0, 0.0), (-1.0, 1.0), (0.0, -1.0), (0.0, 0.0), (1.0, 1.0)];
    for step in 0..240 {
        let dt: f64 = if step % 2 == 0 { 1.0 / 60.0 } else { 1.0 / 45.0 };
        let (steer, throttle) = controls[(step / 40) % controls.len()];
        let stats = MovementStats {
            turn_rate_max: fixed(turn_rate_max),
            turn_rate_increase: fixed(turn_rate_increase),
            turn_rate_friction_const: fixed(turn_rate_friction_const),
            turn_rate_retain: fixed((1.0 - turn_rate_friction_linear).powf(dt)),
            turn_effectiveness: fixed(turn_effectiveness),
            accel_forward: fixed(accel_forward),
            friction_const: fixed(friction_const),
            speed_retain: fixed((1.0 - friction_linear).powf(dt)),
            speed_max: fixed(speed_max),
        };
        let input = held(steer > 0.0, steer < 0.0, throttle > 0.0, throttle < 0.0);

        // turning, in floats
        rate += steer * turn_rate_increase * dt;
        let fric = turn_rate_friction_const * dt;
        rate = if rate >= 0.0 { (rate - fric).max(0.0) } else { (rate + fric).min(0.0) };
        rate *= (1.0 - turn_rate_friction_linear).powf(dt);
        rate = rate.max(-turn_rate_max).min(turn_rate_max);
        let turn = rate * dt;
        let (s, c) = (turn * turn_effectiveness).sin_cos();
        let (rx, ry) = (vx * c - vy * s, vx * s + vy * c);
        vx = rx;
        vy = ry;
        angle = (angle + turn).rem_euclid(tau);
        // acceleration and friction, in floats
        let change = throttle * accel_forward * dt;
        vx += angle.cos() * change;
        vy += angle.sin() * change;
        let speed = (vx * vx + vy * vy).sqrt();
        let (nx, ny) = if speed > 0.0 { (vx / speed, vy / speed) } else { (0.0, 0.0) };
        let drag = (friction_const * dt).min(speed);
        vx -= drag * nx;
        vy -= drag * ny;
        let keep = (1.0 - friction_linear).powf(dt);
        vx *= keep;
        vy *= keep;
        if vx * vx + vy * vy > speed_max * speed_max {
            vx = nx * speed_max;
            vy = ny * speed_max;
        }

        // the same step in fixed point
        heading = turning(&stats, &trig, &mut vel, heading, &mut turn_rate, &input, fixed(dt));
        accel_decel(&stats, &trig, &mut vel, heading, &input, fixed(dt));

        assert!((float(turn_rate) - rate).abs() < 1e-3);
        let mut off = (float(heading) - angle).abs();
        if off > tau / 2.0 {
            off = tau - off;
        }
        assert!(off < 1e-2);
        assert!((float(vel.x) - vx).abs() < 1.5 && (float(vel.y) - vy).abs() < 1.5);
        assert!(vel.length_squared() <= (stats.speed_max as u128) * (stats.speed_max as u128));
    }
    // the body has picked up speed on the way
    assert!(vx * vx + vy * vy > 100.0 * 100.0);
}
