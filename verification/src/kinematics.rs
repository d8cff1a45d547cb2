//! How a steerable body turns, accelerates and slows down.
//!
//! Vehicles and the guided missile share these two steps; only their
//! movement values differ.
use vstd::prelude::*;
use crate::components::{axis, Input};
use crate::cvars::MovementStats;
use crate::fixed::{
    angle_sum, fx_add, fx_limited, fx_mul, fx_toward_zero, limited, product, sat, toward_zero,
    wide_product, TAU,
};
use crate::trig::Trig;
use crate::vec2::{
    lemma_len_sq_bound, lemma_scaled_unit_length, lemma_square_nonnegative,
    lemma_unit_bounded, len_sq, length, v_diff, v_scaled, v_sum, v_turned, v_unit, Vec2,
};

verus! {

/// The turn rate after steering and friction over `dt`: steering adds to it,
/// constant friction moves it toward zero without passing zero, linear
/// friction scales it, and the result is limited to the largest turn rate.
#[verifier::opaque]
pub open spec fn turn_rate_after(stats: MovementStats, turn_rate: int, steer: int, dt: int) -> int {
    let pushed = sat(turn_rate + product(sat(steer * stats.turn_rate_increase), dt));
    let slowed = toward_zero(pushed, product(stats.turn_rate_friction_const as int, dt));
    limited(product(slowed, stats.turn_rate_retain as int), stats.turn_rate_max as int)
}

/// The angle by which a body with the given turn rate turns over `dt`.
pub open spec fn turn_over(turn_rate: int, dt: int) -> int {
    product(turn_rate, dt)
}

/// The heading after turning: the old heading plus the turn, in `[0, TAU)`.
pub open spec fn heading_after(angle: int, turn: int) -> int {
    (angle + turn) % (TAU as int)
}

/// The velocity after turning: rotated by the share of the turn that steers it.
#[verifier::opaque]
pub open spec fn velocity_turned(stats: MovementStats, trig: Trig, vel: Vec2, turn: int) -> Vec2 {
    v_turned(vel, trig.dir(product(turn, stats.turn_effectiveness as int)))
}

/// The smaller of a scalar and a length.
pub open spec fn at_most(a: int, len: int) -> int {
    if a <= len {
        a
    } else {
        len
    }
}

/// The velocity after throttle along the heading, before any friction.
pub open spec fn velocity_pushed(
    stats: MovementStats,
    trig: Trig,
    vel: Vec2,
    angle: int,
    throttle: int,
    dt: int,
) -> Vec2 {
    v_sum(vel, v_scaled(trig.dir(angle), product(sat(throttle * stats.accel_forward), dt)))
}

/// The velocity after friction: constant friction takes off up to its amount
/// of speed along the direction of motion, linear friction scales what is left.
pub open spec fn velocity_slowed(stats: MovementStats, pushed: Vec2, dt: int) -> Vec2 {
    let drag = at_most(product(stats.friction_const as int, dt), length(pushed));
    v_scaled(v_diff(pushed, v_scaled(v_unit(pushed), drag)), stats.speed_retain as int)
}

/// The velocity after throttle, friction and the speed cap over `dt`: a
/// velocity faster than the largest speed is replaced by one of the largest
/// speed along the direction of motion.
#[verifier::opaque]
pub open spec fn velocity_after(
    stats: MovementStats,
    trig: Trig,
    vel: Vec2,
    angle: int,
    throttle: int,
    dt: int,
) -> Vec2 {
    let pushed = velocity_pushed(stats, trig, vel, angle, throttle, dt);
    let slowed = velocity_slowed(stats, pushed, dt);
    if len_sq(slowed) > stats.speed_max * stats.speed_max {
        v_scaled(v_unit(pushed), stats.speed_max as int)
    } else {
        slowed
    }
}

/// Turns a body: updates its turn rate from the steering input and friction,
/// rotates its velocity by the share of the turn that steers it, and returns
/// the heading it would have after the turn. The caller decides whether to
/// take the new heading.
pub fn turning(
    stats: &MovementStats,
    trig: &Trig,
    vel: &mut Vec2,
    angle: i64,
    turn_rate: &mut i64,
    input: &Input,
    dt: i64,
) -> (new_angle: i64)
    ensures
        *final(turn_rate) == turn_rate_after(
            *stats,
            *old(turn_rate) as int,
            axis(input.right, input.left),
            dt as int,
        ),
        *final(vel) == velocity_turned(
            *stats,
            *trig,
            *old(vel),
            turn_over(*final(turn_rate) as int, dt as int),
        ),
        new_angle == heading_after(angle as int, turn_over(*final(turn_rate) as int, dt as int)),
        0 <= new_angle < TAU,
{
    reveal(turn_rate_after);
    reveal(velocity_turned);
    let steer: i64 = input.right_left();
    let push: i64 = if steer > 0 {
        stats.turn_rate_increase
    } else if steer < 0 {
        crate::fixed::fx_neg(stats.turn_rate_increase)
    } else {
        0
    };
    assert(push == sat(steer * stats.turn_rate_increase)) by (nonlinear_arith)
        requires
            steer == 1 || steer == 0 || steer == -1,
            push == (if steer > 0 {
                stats.turn_rate_increase as int
            } else if steer < 0 {
                sat(-stats.turn_rate_increase)
            } else {
                0
            }),
            i64::MIN <= stats.turn_rate_increase <= i64::MAX,
    {
        assert(1 * stats.turn_rate_increase == stats.turn_rate_increase);
        assert(0 * stats.turn_rate_increase == 0);
        assert(-1 * stats.turn_rate_increase == -stats.turn_rate_increase);
    }
    let pushed: i64 = fx_add(*turn_rate, fx_mul(push, dt));

    // Friction's constant component - always the same no matter the speed
    let slowed: i64 = fx_toward_zero(pushed, fx_mul(stats.turn_rate_friction_const, dt));

    // Friction's linear component - increases with speed
    *turn_rate = fx_limited(fx_mul(slowed, stats.turn_rate_retain), stats.turn_rate_max);

    // Turning - part of vel gets rotated to simulate steering
    let turn: i64 = fx_mul(*turn_rate, dt);
    let vel_rotation: i64 = fx_mul(turn, stats.turn_effectiveness);
    *vel = vel.turned(trig.direction(vel_rotation));

    angle_sum(angle, turn)
}

/// Accelerates and slows a body: throttle along the heading, then friction,
/// then the speed cap.
pub fn accel_decel(
    stats: &MovementStats,
    trig: &Trig,
    vel: &mut Vec2,
    angle: i64,
    input: &Input,
    dt: i64,
)
    ensures
        *final(vel) == velocity_after(
            *stats,
            *trig,
            *old(vel),
            angle as int,
            axis(input.up, input.down),
            dt as int,
        ),
        stats.speed_max >= 0 ==> len_sq(*final(vel)) <= stats.speed_max * stats.speed_max,
{
    reveal(velocity_after);
    let throttle: i64 = input.up_down();
    let push: i64 = if throttle > 0 {
        stats.accel_forward
    } else if throttle < 0 {
        crate::fixed::fx_neg(stats.accel_forward)
    } else {
        0
    };
    assert(push == sat(throttle * stats.accel_forward)) by (nonlinear_arith)
        requires
            throttle == 1 || throttle == 0 || throttle == -1,
            push == (if throttle > 0 {
                stats.accel_forward as int
            } else if throttle < 0 {
                sat(-stats.accel_forward)
            } else {
                0
            }),
            i64::MIN <= stats.accel_forward <= i64::MAX,
    {
        assert(1 * stats.accel_forward == stats.accel_forward);
        assert(0 * stats.accel_forward == 0);
        assert(-1 * stats.accel_forward == -stats.accel_forward);
    }
    let vel_change: i64 = fx_mul(push, dt);
    let pushed: Vec2 = vel.plus(trig.direction(angle).scaled(vel_change));

    // Friction's constant component - always the same no matter the speed
    let vel_fric_const: i64 = fx_mul(stats.friction_const, dt);
    let vel_norm: Vec2 = pushed.unit();
    let speed: u64 = pushed.length();
    let drag: i64 = if vel_fric_const < 0 || (vel_fric_const as u64) <= speed {
        vel_fric_const
    } else {
        speed as i64
    };
    let coasting: Vec2 = pushed.minus(vel_norm.scaled(drag));

    // Friction's linear component - increases with speed
    let slowed: Vec2 = coasting.scaled(stats.speed_retain);
    proof {
        lemma_len_sq_bound(slowed);
        lemma_square_nonnegative(stats.speed_max as int);
        crate::fixed::lemma_wide_product(stats.speed_max as int, stats.speed_max as int);
        if stats.speed_max >= 0 {
            speed_stays_capped(*stats, *trig, *old(vel), angle as int, axis(input.up, input.down), dt as int);
        }
    }
    let cap: i128 = wide_product(stats.speed_max, stats.speed_max);
    if slowed.length_squared() > cap as u128 {
        *vel = vel_norm.scaled(stats.speed_max);
    } else {
        *vel = slowed;
    }
}

/// After one step of the kinematics no body is faster than the largest speed
/// of its archetype, whatever its velocity, heading, throttle and the
/// frame's length were.
pub proof fn speed_stays_capped(
    stats: MovementStats,
    trig: Trig,
    vel: Vec2,
    angle: int,
    throttle: int,
    dt: int,
)
    requires
        stats.speed_max >= 0,
    ensures
        len_sq(velocity_after(stats, trig, vel, angle, throttle, dt)) <= stats.speed_max
            * stats.speed_max,
{
    reveal(velocity_after);
    let pushed = velocity_pushed(stats, trig, vel, angle, throttle, dt);
    let slowed = velocity_slowed(stats, pushed, dt);
    if len_sq(slowed) > stats.speed_max * stats.speed_max {
        lemma_unit_bounded(pushed);
        lemma_scaled_unit_length(v_unit(pushed), stats.speed_max as int);
    }
}

/// After one step of the kinematics the heading lies in `[0, TAU)`, whatever
/// the heading and the turn were.
pub proof fn heading_stays_normalized(angle: int, turn: int)
    ensures
        0 <= heading_after(angle, turn) < TAU,
{
}

} // verus!
