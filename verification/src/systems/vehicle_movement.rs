//! How vehicles move, and how they bounce off the map.
use vstd::prelude::*;
use crate::components::{axis, Hitbox, Vehicle};
use crate::cvars::{Cvars, MovementStats};
use crate::fixed::{fx_rebound, rebound};
use crate::game_state::GameState;
use crate::kinematics::{
    accel_decel, heading_after, turn_over, turn_rate_after, turning, velocity_after,
    velocity_turned,
};
use crate::map::TileMap;
use crate::store::{
    lemma_update_ends, lemma_update_step, lists_keys, projectiles_of, read_vehicle, updated_on,
    vehicle_ids, vehicle_order, vehicles_of, write_vehicle,
};
use crate::trig::Trig;
use crate::vec2::{v_rebound, v_scaled, v_sum, Vec2};

verus! {

/// Whether any of the points is blocked on the map.
pub open spec fn any_blocked(map: TileMap, points: Seq<Vec2>) -> bool {
    exists|i: int| 0 <= i < points.len() && map.blocked(#[trigger] points[i])
}

/// Whether all of the points are blocked on the map.
pub open spec fn all_blocked(map: TileMap, points: Seq<Vec2>) -> bool {
    forall|i: int| 0 <= i < points.len() ==> map.blocked(#[trigger] points[i])
}

/// The turn rate with which a vehicle leaves the turning step, before the
/// map is asked.
pub open spec fn turned_rate(stats: MovementStats, v: Vehicle, dt: int) -> int {
    turn_rate_after(stats, v.turn_rate as int, axis(v.input.right, v.input.left), dt)
}

/// The heading that a vehicle would take if the map let it turn.
pub open spec fn wanted_heading(stats: MovementStats, v: Vehicle, dt: int) -> int {
    heading_after(v.angle as int, turn_over(turned_rate(stats, v, dt), dt))
}

/// Whether the map refuses the turn: a corner of the hitbox, at the
/// vehicle's position and the heading it would take, is blocked.
pub open spec fn turn_refused(stats: MovementStats, trig: Trig, map: TileMap, v: Vehicle, dt: int) -> bool {
    any_blocked(map, v.hitbox.corners_at(v.pos, trig.dir(wanted_heading(stats, v, dt))))
}

/// The heading with which a vehicle leaves the turning step.
pub open spec fn settled_heading(stats: MovementStats, trig: Trig, map: TileMap, v: Vehicle, dt: int) -> int {
    if turn_refused(stats, trig, map, v, dt) {
        v.angle as int
    } else {
        wanted_heading(stats, v, dt)
    }
}

/// The velocity that a vehicle would keep if the map let it move.
pub open spec fn wanted_velocity(stats: MovementStats, trig: Trig, map: TileMap, v: Vehicle, dt: int) -> Vec2 {
    velocity_after(
        stats,
        trig,
        velocity_turned(stats, trig, v.vel, turn_over(turned_rate(stats, v, dt), dt)),
        settled_heading(stats, trig, map, v, dt),
        axis(v.input.up, v.input.down),
        dt,
    )
}

/// The position that a vehicle would take if the map let it move.
pub open spec fn wanted_position(stats: MovementStats, trig: Trig, map: TileMap, v: Vehicle, dt: int) -> Vec2 {
    v_sum(v.pos, v_scaled(wanted_velocity(stats, trig, map, v, dt), dt))
}

/// Whether the map refuses the move: a corner of the hitbox, at the position
/// the vehicle would take and the heading it has settled on, is blocked.
pub open spec fn move_refused(stats: MovementStats, trig: Trig, map: TileMap, v: Vehicle, dt: int) -> bool {
    any_blocked(
        map,
        v.hitbox.corners_at(
            wanted_position(stats, trig, map, v, dt),
            trig.dir(settled_heading(stats, trig, map, v, dt)),
        ),
    )
}

/// The vehicle after one tick of movement. A destroyed vehicle stays as it
/// is. A refused turn leaves the heading and bounces the turn rate back; a
/// refused move leaves the position and bounces the velocity back.
pub open spec fn vehicle_moved(stats: MovementStats, trig: Trig, map: TileMap, v: Vehicle, dt: int) -> Vehicle {
    if v.destroyed {
        v
    } else {
        Vehicle {
            pos: if move_refused(stats, trig, map, v, dt) {
                v.pos
            } else {
                wanted_position(stats, trig, map, v, dt)
            },
            vel: if move_refused(stats, trig, map, v, dt) {
                v_rebound(wanted_velocity(stats, trig, map, v, dt))
            } else {
                wanted_velocity(stats, trig, map, v, dt)
            },
            angle: settled_heading(stats, trig, map, v, dt) as i64,
            turn_rate: (if turn_refused(stats, trig, map, v, dt) {
                rebound(turned_rate(stats, v, dt))
            } else {
                turned_rate(stats, v, dt)
            }) as i64,
            ..v
        }
    }
}

/// Movement leaves a normalized heading normalized, and a destroyed vehicle as it is.
pub proof fn movement_keeps_headings_normalized(stats: MovementStats, trig: Trig, map: TileMap, v: Vehicle, dt: int)
    ensures
        v.wf() ==> vehicle_moved(stats, trig, map, v, dt).wf(),
        v.destroyed ==> vehicle_moved(stats, trig, map, v, dt) == v,
        0 <= wanted_heading(stats, v, dt) < crate::fixed::TAU,
{
}

/// A vehicle all of whose hitbox corners would be blocked at the heading it
/// turns to keeps its heading that tick; its turn rate is turned around and
/// halved instead.
pub proof fn blocked_turn_keeps_heading(stats: MovementStats, trig: Trig, map: TileMap, v: Vehicle, dt: int)
    requires
        !v.destroyed,
        all_blocked(map, v.hitbox.corners_at(v.pos, trig.dir(wanted_heading(stats, v, dt)))),
    ensures
        vehicle_moved(stats, trig, map, v, dt).angle == v.angle,
        vehicle_moved(stats, trig, map, v, dt).turn_rate == rebound(turned_rate(stats, v, dt)),
        turned_rate(stats, v, dt) >= 0 ==> vehicle_moved(stats, trig, map, v, dt).turn_rate == -(
        turned_rate(stats, v, dt) / 2),
        turned_rate(stats, v, dt) <= 0 ==> vehicle_moved(stats, trig, map, v, dt).turn_rate == (
        -turned_rate(stats, v, dt)) / 2,
{
    let corners = v.hitbox.corners_at(v.pos, trig.dir(wanted_heading(stats, v, dt)));
    assert(map.blocked(corners[0]));
    crate::fixed::lemma_rebound(turned_rate(stats, v, dt));
    // the turn rate is a limited fixed-point number, so its rebound is one as well
    reveal(turn_rate_after);
}

/// A vehicle all of whose hitbox corners would be blocked at the position it
/// moves to keeps its position that tick; its velocity is turned around and
/// halved instead.
pub proof fn blocked_move_keeps_position(stats: MovementStats, trig: Trig, map: TileMap, v: Vehicle, dt: int)
    requires
        !v.destroyed,
        all_blocked(
            map,
            v.hitbox.corners_at(
                wanted_position(stats, trig, map, v, dt),
                trig.dir(settled_heading(stats, trig, map, v, dt)),
            ),
        ),
    ensures
        vehicle_moved(stats, trig, map, v, dt).pos == v.pos,
        vehicle_moved(stats, trig, map, v, dt).vel == v_rebound(
            wanted_velocity(stats, trig, map, v, dt),
        ),
{
    let corners = v.hitbox.corners_at(
        wanted_position(stats, trig, map, v, dt),
        trig.dir(settled_heading(stats, trig, map, v, dt)),
    );
    assert(map.blocked(corners[0]));
}

/// Whether a hitbox at `pos` heading along `dir` touches anything blocked:
/// its four corners are tested, not its edges.
pub fn hits_map(map: &TileMap, hitbox: &Hitbox, pos: Vec2, dir: Vec2) -> (hit: bool)
    ensures
        hit == any_blocked(*map, hitbox.corners_at(pos, dir)),
{
    let corners = hitbox.corners(pos, dir);
    let mut i: usize = 0;
    while i < 4
        invariant
            0 <= i <= 4,
            corners@ == hitbox.corners_at(pos, dir),
            corners@.len() == 4,
            forall|j: int| 0 <= j < i ==> !map.blocked(#[trigger] corners@[j]),
        decreases 4 - i,
    {
        if map.collision(corners[i]) {
            return true;
        }
        i += 1;
    }
    false
}

/// The first half of a vehicle's movement: the turn. Returns the velocity
/// after steering, the heading the vehicle settles on, and its turn rate.
fn turn_vehicle(stats: &MovementStats, trig: &Trig, map: &TileMap, vehicle: &Vehicle, dt: i64) -> (r: (
    Vec2,
    i64,
    i64,
))
    ensures
        r.0 == velocity_turned(
            *stats,
            *trig,
            vehicle.vel,
            turn_over(turned_rate(*stats, *vehicle, dt as int), dt as int),
        ),
        r.1 == settled_heading(*stats, *trig, *map, *vehicle, dt as int),
        r.2 == (if turn_refused(*stats, *trig, *map, *vehicle, dt as int) {
            rebound(turned_rate(*stats, *vehicle, dt as int))
        } else {
            turned_rate(*stats, *vehicle, dt as int)
        }),
        0 <= vehicle.angle < crate::fixed::TAU ==> 0 <= r.1 < crate::fixed::TAU,
{
    let mut vel: Vec2 = vehicle.vel;
    let mut turn_rate: i64 = vehicle.turn_rate;
    let new_angle: i64 = turning(
        stats,
        trig,
        &mut vel,
        vehicle.angle,
        &mut turn_rate,
        &vehicle.input,
        dt,
    );
    if hits_map(map, &vehicle.hitbox, vehicle.pos, trig.direction(new_angle)) {
        (vel, vehicle.angle, fx_rebound(turn_rate))
    } else {
        (vel, new_angle, turn_rate)
    }
}

/// Moves one vehicle for one tick.
pub fn move_vehicle(stats: &MovementStats, trig: &Trig, map: &TileMap, vehicle: &mut Vehicle, dt: i64)
    ensures
        *final(vehicle) == vehicle_moved(*stats, *trig, *map, *old(vehicle), dt as int),
        0 <= old(vehicle).angle < crate::fixed::TAU ==> 0 <= final(vehicle).angle < crate::fixed::TAU,
{
    if vehicle.destroyed {
        return ;
    }
    let (turned_vel, angle, turn_rate) = turn_vehicle(stats, trig, map, vehicle, dt);
    let mut vel: Vec2 = turned_vel;
    accel_decel(stats, trig, &mut vel, angle, &vehicle.input, dt);

    // Moving
    let new_pos: Vec2 = vehicle.pos.plus(vel.scaled(dt));
    if hits_map(map, &vehicle.hitbox, new_pos, trig.direction(angle)) {
        vel = vel.rebound();
    } else {
        vehicle.pos = new_pos;
    }
    vehicle.vel = vel;
    vehicle.angle = angle;
    vehicle.turn_rate = turn_rate;
}

/// Moves every vehicle that is not destroyed for one tick.
pub fn vehicle_movement(
    cvars: &Cvars,
    world: &mut legion::World,
    gs: &GameState,
    map: &TileMap,
    trig: &Trig,
)
    ensures
        lists_keys(vehicle_order(*old(world)), vehicles_of(*old(world))),
        vehicles_of(*final(world)).dom() == vehicles_of(*old(world)).dom(),
        forall|e: legion::Entity| #[trigger]
            vehicles_of(*old(world)).dom().contains(e) ==> vehicles_of(*final(world))[e] == vehicle_moved(
                cvars.vehicle_movement(vehicles_of(*old(world))[e].veh_type),
                *trig,
                *map,
                vehicles_of(*old(world))[e],
                gs.dt as int,
            ),
        projectiles_of(*final(world)) == projectiles_of(*old(world)),
{
    let ids = vehicle_ids(world);
    let ghost before = vehicles_of(*world);
    let ghost f = |e: legion::Entity, v: Vehicle|
        vehicle_moved(cvars.vehicle_movement(v.veh_type), *trig, *map, v, gs.dt as int);
    proof {
        lemma_update_ends(before, before, ids@, f);
    }
    let mut i: usize = 0;
    while i < ids.len()
        invariant
            0 <= i <= ids.len(),
            lists_keys(ids@, before),
            f == (|e: legion::Entity, v: Vehicle|
                vehicle_moved(cvars.vehicle_movement(v.veh_type), *trig, *map, v, gs.dt as int)),
            updated_on(vehicles_of(*world), before, ids@.take(i as int), f),
            projectiles_of(*world) == projectiles_of(*old(world)),
        decreases ids.len() - i,
    {
        let id = ids[i];
        proof {
            lemma_update_step(vehicles_of(*world), before, ids@, i as int, f);
        }
        if let Some(mut vehicle) = read_vehicle(world, id) {
            let stats = cvars.g_vehicle_movement_stats(vehicle.veh_type);
            move_vehicle(&stats, trig, map, &mut vehicle, gs.dt);
            write_vehicle(world, id, vehicle);
        }
        i += 1;
    }
    proof {
        lemma_update_ends(vehicles_of(*world), before, ids@, f);
    }
}

} // verus!
