//! How vehicles fire.
use vstd::prelude::*;
use crate::components::{set_ammo, Ammo, Guidance, Input, Projectile, Vehicle, Weapon};
use crate::cvars::{Cvars, Hardpoint};
use crate::fixed::{fx_add, fx_mul, product, quot, sat, ONE};
use crate::game_state::{
    after_draws, lemma_after_draws, next_normal, rest_normals, uniform, GameState,
};
use crate::map::TileMap;
use crate::store::{
    flush_into, holds_rounds_only, identity, lemma_update_ends, lemma_update_step,
    listings_are_equally_long, lists_keys, new_buffer, parent, projectiles_of, queue_projectile,
    queued, read_vehicle, rounds_landed, same_entity, updated_on, vehicle_ids, vehicle_order,
    vehicles_of, waiting_ids, waiting_rounds, write_vehicle,
};
use crate::trig::Trig;
use crate::vec2::{v_scaled, v_sum, v_turned, Vec2};

verus! {

/// How far a railgun reaches.
pub const RAIL_RANGE: i64 = 100_000_000_000;

/// The bound of the uniform scatter of a cluster bomblet's speed: one and a half.
pub const SCATTER_LIMIT: i64 = 1_500_000;

/// Where a shot leaves the weapon, and in which direction.
#[derive(Clone, Copy, Debug, PartialEq, Eq, Structural)]
pub struct Muzzle {
    pub origin: Vec2,
    pub angle: i64,
}

/// The muzzle of a vehicle's selected weapon. A weapon on the chassis sits
/// at its offset, turned with the chassis, and fires along the chassis. A
/// weapon on the turret sits at its offset, turned with chassis and turret,
/// from the turret's pivot, which is turned with the chassis; it fires along
/// the turret.
pub open spec fn muzzle(cvars: Cvars, trig: Trig, v: Vehicle) -> Muzzle {
    let mount = cvars.hardpoint(v.veh_type, v.cur_weapon);
    match mount.hardpoint {
        Hardpoint::Chassis => Muzzle {
            origin: v_sum(v.pos, v_turned(mount.offset, trig.dir(v.angle as int))),
            angle: v.angle,
        },
        Hardpoint::Turret => Muzzle {
            origin: v_sum(
                v_sum(v.pos, v_turned(cvars.turret_offset(v.veh_type), trig.dir(v.angle as int))),
                v_turned(mount.offset, trig.dir(sat(v.angle + v.turret_angle))),
            ),
            angle: sat(v.angle + v.turret_angle) as i64,
        },
    }
}

/// Finds the muzzle of a vehicle's selected weapon.
pub fn aim(cvars: &Cvars, trig: &Trig, v: &Vehicle) -> (m: Muzzle)
    ensures
        m == muzzle(*cvars, *trig, *v),
{
    let mount = cvars.g_hardpoint(v.veh_type, v.cur_weapon);
    match mount.hardpoint {
        Hardpoint::Chassis => Muzzle {
            origin: v.pos.plus(mount.offset.turned(trig.direction(v.angle))),
            angle: v.angle,
        },
        Hardpoint::Turret => {
            let shot_angle: i64 = fx_add(v.angle, v.turret_angle);
            let turret_offset = cvars.g_vehicle_turret_offset_chassis(v.veh_type);
            Muzzle {
                origin: v.pos.plus(turret_offset.turned(trig.direction(v.angle))).plus(
                    mount.offset.turned(trig.direction(shot_angle)),
                ),
                angle: shot_angle,
            }
        },
    }
}

/// Whether a magazine lets a shot go at the given time.
pub open spec fn ready(ammo: Ammo, now: i64) -> bool {
    match ammo {
        Ammo::Loaded(ready_time, _) => now >= ready_time,
        Ammo::Reloading(_, _) => false,
    }
}

/// Whether a vehicle fires: it is whole, the fire control is held, the
/// selected weapon is loaded and ready, and if that weapon is the guided
/// missile, the vehicle is the player's.
pub open spec fn fires(v: Vehicle, is_player: bool, fire: bool, now: i64) -> bool {
    &&& !v.destroyed
    &&& fire
    &&& ready(v.cur_ammo(), now)
    &&& (v.cur_weapon == Weapon::Gm ==> is_player)
}

/// The magazine after a shot at the given time: the last shot starts the
/// reload, any other makes the weapon wait for its refire time.
pub open spec fn ammo_after_shot(cvars: Cvars, weapon: Weapon, ammo: Ammo, now: i64) -> Ammo {
    match ammo {
        Ammo::Loaded(_, count) => if count <= 1 {
            Ammo::Reloading(now, sat(now + cvars.reload_time(weapon)) as i64)
        } else {
            Ammo::Loaded(sat(now + cvars.refire(weapon)) as i64, (count - 1) as u32)
        },
        Ammo::Reloading(_, _) => ammo,
    }
}

/// The vehicle after the fire control has been read.
pub open spec fn triggered(cvars: Cvars, v: Vehicle, is_player: bool, fire: bool, now: i64) -> Vehicle {
    if fires(v, is_player, fire, now) {
        v.with_cur_ammo(ammo_after_shot(cvars, v.cur_weapon, v.cur_ammo(), now))
    } else {
        v
    }
}

/// The number of projectiles that one shot of a weapon puts into the game.
pub open spec fn rounds_of(cvars: Cvars, weapon: Weapon) -> nat {
    match weapon {
        Weapon::Rail => 0,
        Weapon::Cb => cvars.g_cluster_bomb_count as nat,
        _ => 1,
    }
}

/// Reads the fire control of one vehicle and spends the shot if it fires.
pub fn pull_trigger(cvars: &Cvars, vehicle: &mut Vehicle, is_player: bool, fire: bool, now: i64) -> (fired: bool)
    ensures
        fired == fires(*old(vehicle), is_player, fire, now),
        *final(vehicle) == triggered(*cvars, *old(vehicle), is_player, fire, now),
{
    if vehicle.destroyed || !fire {
        return false;
    }
    let weapon = vehicle.cur_weapon;
    let slot: usize = weapon.index();
    match vehicle.ammos[slot] {
        Ammo::Loaded(ready_time, count) => {
            if now < ready_time {
                return false;
            }
            if matches!(weapon, Weapon::Gm) && !is_player {
                return false;
            }
            let ghost before = *vehicle;
            let after: Ammo = if count <= 1 {
                Ammo::Reloading(now, fx_add(now, cvars.g_weapon_reload_time(weapon)))
            } else {
                Ammo::Loaded(fx_add(now, cvars.g_weapon_refire(weapon)), count - 1)
            };
            set_ammo(&mut vehicle.ammos, slot, after);
            assert(vehicle.ammos =~= before.with_cur_ammo(after).ammos);
            true
        },
        Ammo::Reloading(_, _) => false,
    }
}

/// The velocity with which a projectile is launched: its own, given along
/// and across the direction of the shot and turned into that direction,
/// plus a share of the firing vehicle's.
pub open spec fn launched(
    trig: Trig,
    forward: int,
    sideways: int,
    angle: int,
    veh_vel: Vec2,
    factor: int,
) -> Vec2 {
    v_sum(
        v_turned(Vec2 { x: forward as i64, y: sideways as i64 }, trig.dir(angle)),
        v_scaled(veh_vel, factor),
    )
}

fn launch(trig: &Trig, forward: i64, sideways: i64, angle: i64, veh_vel: Vec2, factor: i64) -> (vel: Vec2)
    ensures
        vel == launched(*trig, forward as int, sideways as int, angle as int, veh_vel, factor as int),
{
    Vec2 { x: forward, y: sideways }.turned(trig.direction(angle)).plus(veh_vel.scaled(factor))
}

/// A machine gun's round. The shot's direction is spread by the deviate
/// times the machine gun's angle spread.
pub open spec fn machine_gun_round(
    cvars: Cvars,
    trig: Trig,
    m: Muzzle,
    veh_vel: Vec2,
    owner: legion::Entity,
    deviate: i64,
) -> Projectile {
    Projectile {
        weapon: Weapon::Mg,
        pos: m.origin,
        vel: launched(
            trig,
            cvars.g_machine_gun_speed as int,
            0,
            sat(m.angle + product(cvars.g_machine_gun_angle_spread as int, deviate as int)),
            veh_vel,
            cvars.g_machine_gun_vehicle_velocity_factor as int,
        ),
        owner,
        expiry: None,
        guidance: None,
    }
}

/// A machine gun without spread, on a vehicle heading straight along `x`
/// whose velocity it does not inherit, fires a round that leaves straight
/// along `x` at exactly the muzzle speed.
pub proof fn a_straight_shot_leaves_at_muzzle_speed(
    cvars: Cvars,
    trig: Trig,
    m: Muzzle,
    veh_vel: Vec2,
    owner: legion::Entity,
    deviate: i64,
)
    requires
        trig.wf(),
        m.angle == 0,
        cvars.g_machine_gun_angle_spread == 0,
        cvars.g_machine_gun_vehicle_velocity_factor == 0,
    ensures
        machine_gun_round(cvars, trig, m, veh_vel, owner, deviate).vel == (Vec2 {
            x: cvars.g_machine_gun_speed,
            y: 0,
        }),
        machine_gun_round(cvars, trig, m, veh_vel, owner, deviate).pos == m.origin,
{
    let speed = cvars.g_machine_gun_speed as int;
    assert(0 * deviate == 0);
    assert(product(0, deviate as int) == 0);
    crate::trig::the_turn_begins_along_x(trig, 0);
    assert(veh_vel.x * 0 == 0 && veh_vel.y * 0 == 0);
    assert(speed * ONE - 0 * 0 == speed * ONE);
    assert(speed * 0 + 0 * ONE == 0);
    assert(quot(speed * ONE, ONE as int) == speed);
}

/// Makes a machine gun's round from a standard normal deviate.
pub fn make_machine_gun_round(
    cvars: &Cvars,
    trig: &Trig,
    m: Muzzle,
    veh_vel: Vec2,
    owner: legion::Entity,
    deviate: i64,
) -> (r: Projectile)
    ensures
        r == machine_gun_round(*cvars, *trig, m, veh_vel, owner, deviate),
{
    let spread: i64 = fx_mul(cvars.g_machine_gun_angle_spread, deviate);
    // Using spread as y would mean the resulting spread depends on speed
    // so it's better to use spread on angle.
    Projectile {
        weapon: Weapon::Mg,
        pos: m.origin,
        vel: launch(
            trig,
            cvars.g_machine_gun_speed,
            0,
            fx_add(m.angle, spread),
            veh_vel,
            cvars.g_machine_gun_vehicle_velocity_factor,
        ),
        owner,
        expiry: None,
        guidance: None,
    }
}

/// The round of a weapon that fires one unguided projectile straight ahead.
pub open spec fn plain_round(
    cvars: Cvars,
    trig: Trig,
    weapon: Weapon,
    m: Muzzle,
    veh_vel: Vec2,
    owner: legion::Entity,
) -> Projectile {
    Projectile {
        weapon,
        pos: m.origin,
        vel: launched(
            trig,
            cvars.muzzle_speed(weapon) as int,
            0,
            m.angle as int,
            veh_vel,
            cvars.velocity_factor(weapon) as int,
        ),
        owner,
        expiry: None,
        guidance: None,
    }
}

/// Makes the round of a weapon that fires one unguided projectile straight ahead.
pub fn make_plain_round(
    cvars: &Cvars,
    trig: &Trig,
    weapon: Weapon,
    m: Muzzle,
    veh_vel: Vec2,
    owner: legion::Entity,
) -> (r: Projectile)
    ensures
        r == plain_round(*cvars, *trig, weapon, m, veh_vel, owner),
{
    Projectile {
        weapon,
        pos: m.origin,
        vel: launch(
            trig,
            cvars.g_weapon_speed(weapon),
            0,
            m.angle,
            veh_vel,
            cvars.g_weapon_vehicle_velocity_factor(weapon),
        ),
        owner,
        expiry: None,
        guidance: None,
    }
}

/// A guided missile as it is launched: it heads the way it flies, does not
/// turn yet, and has no control pressed.
pub open spec fn guided_round(
    cvars: Cvars,
    trig: Trig,
    m: Muzzle,
    veh_vel: Vec2,
    owner: legion::Entity,
) -> Projectile {
    let vel = plain_round(cvars, trig, Weapon::Gm, m, veh_vel, owner).vel;
    Projectile {
        weapon: Weapon::Gm,
        pos: m.origin,
        vel,
        owner,
        expiry: None,
        guidance: Some(
            Guidance { angle: trig.heading_of(vel) as i64, turn_rate: 0, input: Input::neutral() },
        ),
    }
}

/// Makes a guided missile.
pub fn make_guided_round(cvars: &Cvars, trig: &Trig, m: Muzzle, veh_vel: Vec2, owner: legion::Entity) -> (r: Projectile)
    ensures
        r == guided_round(*cvars, *trig, m, veh_vel, owner),
{
    let plain = make_plain_round(cvars, trig, Weapon::Gm, m, veh_vel, owner);
    Projectile {
        weapon: Weapon::Gm,
        pos: m.origin,
        vel: plain.vel,
        owner,
        expiry: None,
        guidance: Some(
            Guidance { angle: trig.heading(plain.vel), turn_rate: 0, input: Input::empty() },
        ),
    }
}

/// The chance in one cluster bomblet: how far its speed along and across
/// the shot and its time deviate, each as a multiple of the spread.
#[derive(Clone, Copy, Debug, PartialEq, Eq, Structural)]
pub struct Scatter {
    pub forward: i64,
    pub sideways: i64,
    pub time: i64,
}

impl Scatter {
    /// What holds of every scatter that is drawn: the time deviates by less
    /// than one spread, and the speed, unless it is normally distributed, by
    /// less than one and a half.
    pub open spec fn in_range(self, cvars: Cvars) -> bool {
        &&& -ONE <= self.time < ONE
        &&& !cvars.g_cluster_bomb_speed_spread_gaussian ==> {
            &&& -SCATTER_LIMIT <= self.forward < SCATTER_LIMIT
            &&& -SCATTER_LIMIT <= self.sideways < SCATTER_LIMIT
        }
    }

    /// Whether the scatter can have been drawn with `pool` as the stock of
    /// normal deviates: it is in range, and a normally distributed speed is
    /// made of the next two deviates of the stock, the one along the shot
    /// first.
    pub open spec fn drawn_from(self, cvars: Cvars, pool: Seq<i64>) -> bool {
        &&& self.in_range(cvars)
        &&& cvars.g_cluster_bomb_speed_spread_gaussian ==> {
            &&& self.forward == next_normal(pool)
            &&& self.sideways == next_normal(rest_normals(pool))
        }
    }
}

/// The time at which a cluster bomblet expires.
pub open spec fn bomblet_expiry(cvars: Cvars, now: i64, time: i64) -> int {
    sat(
        sat(now + cvars.g_cluster_bomb_time) + product(
            time as int,
            cvars.g_cluster_bomb_time_spread as int,
        ),
    )
}

/// A cluster bomblet.
pub open spec fn cluster_bomblet(
    cvars: Cvars,
    trig: Trig,
    m: Muzzle,
    veh_vel: Vec2,
    owner: legion::Entity,
    now: i64,
    s: Scatter,
) -> Projectile {
    Projectile {
        weapon: Weapon::Cb,
        pos: m.origin,
        vel: launched(
            trig,
            sat(
                cvars.g_cluster_bomb_speed + product(
                    cvars.g_cluster_bomb_speed_spread_forward as int,
                    s.forward as int,
                ),
            ),
            product(cvars.g_cluster_bomb_speed_spread_sideways as int, s.sideways as int),
            m.angle as int,
            veh_vel,
            cvars.g_cluster_bomb_vehicle_velocity_factor as int,
        ),
        owner,
        expiry: Some(bomblet_expiry(cvars, now, s.time) as i64),
        guidance: None,
    }
}

/// Makes a cluster bomblet from its scatter.
pub fn make_cluster_bomblet(
    cvars: &Cvars,
    trig: &Trig,
    m: Muzzle,
    veh_vel: Vec2,
    owner: legion::Entity,
    now: i64,
    s: Scatter,
) -> (r: Projectile)
    ensures
        r == cluster_bomblet(*cvars, *trig, m, veh_vel, owner, now, s),
{
    let spread_forward: i64 = fx_mul(cvars.g_cluster_bomb_speed_spread_forward, s.forward);
    let spread_sideways: i64 = fx_mul(cvars.g_cluster_bomb_speed_spread_sideways, s.sideways);
    let time: i64 = fx_add(
        fx_add(now, cvars.g_cluster_bomb_time),
        fx_mul(s.time, cvars.g_cluster_bomb_time_spread),
    );
    Projectile {
        weapon: Weapon::Cb,
        pos: m.origin,
        vel: launch(
            trig,
            fx_add(cvars.g_cluster_bomb_speed, spread_forward),
            spread_sideways,
            m.angle,
            veh_vel,
            cvars.g_cluster_bomb_vehicle_velocity_factor,
        ),
        owner,
        expiry: Some(time),
        guidance: None,
    }
}

/// A cluster bomblet expires no further from the cluster bomb's time than
/// the time spread, whatever its scatter.
pub proof fn bomblet_expires_in_range(cvars: Cvars, now: i64, time: i64)
    requires
        -ONE <= time <= ONE,
        cvars.g_cluster_bomb_time_spread >= 0,
    ensures
        sat(sat(now + cvars.g_cluster_bomb_time) - cvars.g_cluster_bomb_time_spread)
            <= bomblet_expiry(cvars, now, time) <= sat(
            sat(now + cvars.g_cluster_bomb_time) + cvars.g_cluster_bomb_time_spread,
        ),
{
    let spread = cvars.g_cluster_bomb_time_spread as int;
    let t = time as int;
    assert(-(ONE * spread) <= t * spread <= ONE * spread) by (nonlinear_arith)
        requires
            -ONE <= t <= ONE,
            spread >= 0,
    ;
    assert(-spread <= quot(t * spread, ONE as int) <= spread) by {
        if t * spread >= 0 {
            assert((t * spread) / (ONE as int) <= spread) by (nonlinear_arith)
                requires
                    0 <= t * spread <= ONE * spread,
            ;
        } else {
            assert((-(t * spread)) / (ONE as int) <= spread) by (nonlinear_arith)
                requires
                    0 <= -(t * spread) <= ONE * spread,
            ;
        }
    }
}

/// A cluster bomb puts as many bomblets into the game as it is set to hold,
/// and each of them expires no further from the cluster bomb's time than
/// the time spread.
pub proof fn bomblets_are_counted_and_timed(
    cvars: Cvars,
    trig: Trig,
    v: Vehicle,
    owner: legion::Entity,
    is_player: bool,
    fire: bool,
    now: i64,
    r: Projectile,
)
    requires
        v.cur_weapon == Weapon::Cb,
        cvars.g_cluster_bomb_time_spread >= 0,
    ensures
        fires(v, is_player, fire, now) ==> rounds_fired(cvars, v, is_player, fire, now)
            == cvars.g_cluster_bomb_count,
        !fires(v, is_player, fire, now) ==> rounds_fired(cvars, v, is_player, fire, now) == 0,
        is_round_of(cvars, trig, v, owner, now, r) ==> (r.expiry matches Some(end) && sat(
            sat(now + cvars.g_cluster_bomb_time) - cvars.g_cluster_bomb_time_spread,
        ) <= end <= sat(sat(now + cvars.g_cluster_bomb_time) + cvars.g_cluster_bomb_time_spread)),
{
    if is_round_of(cvars, trig, v, owner, now, r) {
        let m = muzzle(cvars, trig, v);
        let s = choose|s: Scatter|
            s.in_range(cvars) && r == #[trigger] cluster_bomblet(cvars, trig, m, v.vel, owner, now, s);
        bomblet_expires_in_range(cvars, now, s.time);
    }
}

/// A shot never leaves a loaded magazine without a round: the last round
/// starts the reload in the same step.
pub proof fn no_magazine_is_left_loaded_and_empty(cvars: Cvars, weapon: Weapon, ammo: Ammo, now: i64)
    requires
        ammo is Loaded,
    ensures
        ammo_after_shot(cvars, weapon, ammo, now) matches Ammo::Loaded(_, count) ==> count >= 1,
        ammo_after_shot(cvars, weapon, ammo, now) is Reloading <==> (ammo matches Ammo::Loaded(
            _,
            count,
        ) && count <= 1),
{
}

/// The number of normal deviates that the scatter of one cluster bomblet takes.
pub open spec fn scatter_deviates(cvars: Cvars) -> nat {
    if cvars.g_cluster_bomb_speed_spread_gaussian {
        2
    } else {
        0
    }
}

/// Draws the scatter of one cluster bomblet: the speed along the shot, the
/// speed across it, and the time, in this order. The speed is scattered by
/// normal deviates or uniformly, as the game is set; the time uniformly.
pub fn draw_scatter(cvars: &Cvars, gs: &mut GameState) -> (s: Scatter)
    ensures
        s.drawn_from(*cvars, old(gs).normals@),
        !cvars.g_cluster_bomb_speed_spread_gaussian ==> final(gs).normals == old(gs).normals,
        final(gs).normals@ == after_draws(old(gs).normals@, scatter_deviates(*cvars)),
        final(gs).same_but_chance(*old(gs)),
{
    let forward: i64;
    let sideways: i64;
    proof {
        lemma_after_draws(gs.normals@, 1, 1);
        lemma_after_draws(gs.normals@, 2, 0);
    }
    if cvars.g_cluster_bomb_speed_spread_gaussian {
        forward = gs.take_normal();
        sideways = gs.take_normal();
    } else {
        forward = uniform(&mut gs.rng, -SCATTER_LIMIT, SCATTER_LIMIT);
        sideways = uniform(&mut gs.rng, -SCATTER_LIMIT, SCATTER_LIMIT);
    }
    let time: i64 = uniform(&mut gs.rng, -ONE, ONE);
    Scatter { forward, sideways, time }
}

/// Whether `r` can be what a shot of the vehicle's selected weapon puts
/// into the game: for the weapons that leave something to chance, whether
/// some chance gives `r`.
pub open spec fn is_round_of(
    cvars: Cvars,
    trig: Trig,
    v: Vehicle,
    owner: legion::Entity,
    now: i64,
    r: Projectile,
) -> bool {
    let m = muzzle(cvars, trig, v);
    match v.cur_weapon {
        Weapon::Mg => exists|deviate: i64|
            r == #[trigger] machine_gun_round(cvars, trig, m, v.vel, owner, deviate),
        Weapon::Rail => false,
        Weapon::Cb => exists|s: Scatter|
            s.in_range(cvars) && r == #[trigger] cluster_bomblet(
                cvars,
                trig,
                m,
                v.vel,
                owner,
                now,
                s,
            ),
        Weapon::Gm => r == guided_round(cvars, trig, m, v.vel, owner),
        _ => r == plain_round(cvars, trig, v.cur_weapon, m, v.vel, owner),
    }
}

/// The number of normal deviates that one round of a weapon takes.
pub open spec fn round_deviates(cvars: Cvars, weapon: Weapon) -> nat {
    match weapon {
        Weapon::Mg => 1,
        Weapon::Cb => scatter_deviates(cvars),
        _ => 0,
    }
}

/// Whether `r` is what a shot of the vehicle's selected weapon puts into
/// the game when `pool` is the stock of normal deviates at that moment. A
/// machine gun's round is spread by the next deviate of the stock. A cluster
/// bomblet whose speed is normally distributed takes the next two; its
/// time, and its speed otherwise, are left to chance within their ranges.
pub open spec fn round_from(
    cvars: Cvars,
    trig: Trig,
    v: Vehicle,
    owner: legion::Entity,
    now: i64,
    pool: Seq<i64>,
    r: Projectile,
) -> bool {
    let m = muzzle(cvars, trig, v);
    match v.cur_weapon {
        Weapon::Mg => r == machine_gun_round(cvars, trig, m, v.vel, owner, next_normal(pool)),
        Weapon::Rail => false,
        Weapon::Cb => exists|s: Scatter|
            s.drawn_from(cvars, pool) && r == #[trigger] cluster_bomblet(
                cvars,
                trig,
                m,
                v.vel,
                owner,
                now,
                s,
            ),
        Weapon::Gm => r == guided_round(cvars, trig, m, v.vel, owner),
        _ => r == plain_round(cvars, trig, v.cur_weapon, m, v.vel, owner),
    }
}

/// A round made from a stock of deviates is a round of its weapon: what
/// holds of every round of a weapon holds of it.
pub proof fn rounds_from_stock_are_rounds(
    cvars: Cvars,
    trig: Trig,
    v: Vehicle,
    owner: legion::Entity,
    now: i64,
    pool: Seq<i64>,
    r: Projectile,
)
    requires
        round_from(cvars, trig, v, owner, now, pool, r),
    ensures
        is_round_of(cvars, trig, v, owner, now, r),
{
    let m = muzzle(cvars, trig, v);
    if v.cur_weapon == Weapon::Cb {
        let s = choose|s: Scatter|
            s.drawn_from(cvars, pool) && r == #[trigger] cluster_bomblet(
                cvars,
                trig,
                m,
                v.vel,
                owner,
                now,
                s,
            );
        assert(s.in_range(cvars) && r == cluster_bomblet(cvars, trig, m, v.vel, owner, now, s));
    }
}

/// The number of projectiles that a vehicle puts into the game this tick.
pub open spec fn rounds_fired(cvars: Cvars, v: Vehicle, is_player: bool, fire: bool, now: i64) -> nat {
    if fires(v, is_player, fire, now) {
        rounds_of(cvars, v.cur_weapon)
    } else {
        0
    }
}

/// The number of normal deviates that a vehicle's shot takes this tick: one
/// for a machine gun's round, two for each cluster bomblet whose speed is
/// normally distributed.
pub open spec fn deviates_used(cvars: Cvars, v: Vehicle, is_player: bool, fire: bool, now: i64) -> nat {
    if !fires(v, is_player, fire, now) {
        0
    } else if v.cur_weapon == Weapon::Mg {
        1
    } else if v.cur_weapon == Weapon::Cb {
        cvars.g_cluster_bomb_count as nat * scatter_deviates(cvars)
    } else {
        0
    }
}

/// The trace that a vehicle's railgun leaves this tick: from the muzzle to
/// where the map stops the shot, if the vehicle fires its railgun and the
/// shot meets the map within the railgun's reach.
pub open spec fn trace_of(
    cvars: Cvars,
    trig: Trig,
    map: TileMap,
    v: Vehicle,
    is_player: bool,
    fire: bool,
    now: i64,
) -> Seq<(Vec2, Vec2)> {
    let m = muzzle(cvars, trig, v);
    let end = v_sum(m.origin, v_scaled(trig.dir(m.angle as int), RAIL_RANGE as int));
    if fires(v, is_player, fire, now) && v.cur_weapon == Weapon::Rail {
        match map.hit(m.origin, end) {
            Some(wall) => seq![(m.origin, wall)],
            None => seq![],
        }
    } else {
        seq![]
    }
}

/// Lets one vehicle fire if it does: spends the shot, leaves a railgun's
/// trace in the game state, and puts the projectiles on the list of those
/// to add to the store.
pub fn shoot(
    cvars: &Cvars,
    trig: &Trig,
    map: &TileMap,
    gs: &mut GameState,
    vehicle: &mut Vehicle,
    id: legion::Entity,
    pending: &mut Vec<Projectile>,
)
    ensures
        *final(vehicle) == triggered(
            *cvars,
            *old(vehicle),
            id == old(gs).player_entity,
            old(gs).input.fire,
            old(gs).frame_time,
        ),
        final(gs).railguns@ == old(gs).railguns@ + trace_of(
            *cvars,
            *trig,
            *map,
            *old(vehicle),
            id == old(gs).player_entity,
            old(gs).input.fire,
            old(gs).frame_time,
        ),
        final(pending)@.len() == old(pending)@.len() + rounds_fired(
            *cvars,
            *old(vehicle),
            id == old(gs).player_entity,
            old(gs).input.fire,
            old(gs).frame_time,
        ),
        final(pending)@.take(old(pending)@.len() as int) == old(pending)@,
        forall|k: int|
            old(pending)@.len() <= k < final(pending)@.len() ==> (#[trigger] final(pending)@[k]).owner
                == id && round_from(
                *cvars,
                *trig,
                *old(vehicle),
                id,
                old(gs).frame_time,
                after_draws(
                    old(gs).normals@,
                    (k - old(pending)@.len()) as nat * round_deviates(
                        *cvars,
                        old(vehicle).cur_weapon,
                    ),
                ),
                final(pending)@[k],
            ),
        fires(
            *old(vehicle),
            id == old(gs).player_entity,
            old(gs).input.fire,
            old(gs).frame_time,
        ) && old(vehicle).cur_weapon == Weapon::Mg ==> final(pending)@.last() == machine_gun_round(
            *cvars,
            *trig,
            muzzle(*cvars, *trig, *old(vehicle)),
            old(vehicle).vel,
            id,
            next_normal(old(gs).normals@),
        ),
        final(gs).normals@ == after_draws(
            old(gs).normals@,
            deviates_used(
                *cvars,
                *old(vehicle),
                id == old(gs).player_entity,
                old(gs).input.fire,
                old(gs).frame_time,
            ),
        ),
        !(fires(
            *old(vehicle),
            id == old(gs).player_entity,
            old(gs).input.fire,
            old(gs).frame_time,
        ) && old(vehicle).cur_weapon == Weapon::Cb) ==> final(gs).rng == old(gs).rng,
        final(gs).frame_time == old(gs).frame_time,
        final(gs).dt == old(gs).dt,
        final(gs).input == old(gs).input,
        final(gs).explosions == old(gs).explosions,
        final(gs).bfg_beams == old(gs).bfg_beams,
        final(gs).guided_missile == old(gs).guided_missile,
        final(gs).player_entity == old(gs).player_entity,
{
    let is_player: bool = same_entity(id, gs.player_entity);
    let shooter: Vehicle = *vehicle;
    let now: i64 = gs.frame_time;
    proof {
        lemma_after_draws(gs.normals@, 0, 0);
        assert(pending@.take(old(pending)@.len() as int) =~= old(pending)@);
        assert(gs.railguns@ =~= old(gs).railguns@ + Seq::<(Vec2, Vec2)>::empty());
    }
    if !pull_trigger(cvars, vehicle, is_player, gs.input.fire, now) {
        return ;
    }
    let m: Muzzle = aim(cvars, trig, &shooter);
    match shooter.cur_weapon {
        Weapon::Mg => {
            let deviate: i64 = gs.take_normal();
            pending.push(make_machine_gun_round(cvars, trig, m, shooter.vel, id, deviate));
            proof {
                lemma_after_draws(old(gs).normals@, 1, 0);
                assert(0nat * round_deviates(*cvars, shooter.cur_weapon) == 0) by (nonlinear_arith);
                assert(pending@.take(old(pending)@.len() as int) =~= old(pending)@);
            }
        },
        Weapon::Rail => {
            let end: Vec2 = m.origin.plus(trig.direction(m.angle).scaled(RAIL_RANGE));
            if let Some(hit) = map.collision_between(m.origin, end) {
                gs.railguns.push((m.origin, hit));
                assert(gs.railguns@ =~= old(gs).railguns@ + seq![(m.origin, hit)]);
            }
        },
        Weapon::Cb => {
            let mut n: u32 = 0;
            while n < cvars.g_cluster_bomb_count
                invariant
                    0 <= n <= cvars.g_cluster_bomb_count,
                    shooter == *old(vehicle),
                    m == muzzle(*cvars, *trig, shooter),
                    shooter.cur_weapon == Weapon::Cb,
                    now == old(gs).frame_time,
                    pending@.len() == old(pending)@.len() + n,
                    pending@.take(old(pending)@.len() as int) == old(pending)@,
                    forall|k: int|
                        old(pending)@.len() <= k < pending@.len() ==> (#[trigger] pending@[k]).owner
                            == id && round_from(
                            *cvars,
                            *trig,
                            shooter,
                            id,
                            now,
                            after_draws(
                                old(gs).normals@,
                                (k - old(pending)@.len()) as nat * round_deviates(
                                    *cvars,
                                    shooter.cur_weapon,
                                ),
                            ),
                            pending@[k],
                        ),
                    gs.normals@ == after_draws(
                        old(gs).normals@,
                        n as nat * scatter_deviates(*cvars),
                    ),
                    gs.frame_time == old(gs).frame_time,
                    gs.dt == old(gs).dt,
                    gs.input == old(gs).input,
                    gs.explosions == old(gs).explosions,
                    gs.bfg_beams == old(gs).bfg_beams,
                    gs.railguns == old(gs).railguns,
                    gs.guided_missile == old(gs).guided_missile,
                    gs.player_entity == old(gs).player_entity,
                decreases cvars.g_cluster_bomb_count - n,
            {
                let ghost before = *gs;
                let ghost listed = pending@;
                let scatter: Scatter = draw_scatter(cvars, gs);
                let bomblet = make_cluster_bomblet(cvars, trig, m, shooter.vel, id, now, scatter);
                pending.push(bomblet);
                proof {
                    lemma_after_draws(
                        old(gs).normals@,
                        n as nat * scatter_deviates(*cvars),
                        scatter_deviates(*cvars),
                    );
                    assert((n + 1) as nat * scatter_deviates(*cvars) == n as nat * scatter_deviates(
                        *cvars,
                    ) + scatter_deviates(*cvars)) by (nonlinear_arith);
                    assert(pending@.take(old(pending)@.len() as int) =~= old(pending)@);
                    assert forall|k: int| old(pending)@.len() <= k < pending@.len() implies (
                    #[trigger] pending@[k]).owner == id && round_from(
                        *cvars,
                        *trig,
                        shooter,
                        id,
                        now,
                        after_draws(
                            old(gs).normals@,
                            (k - old(pending)@.len()) as nat * round_deviates(
                                *cvars,
                                shooter.cur_weapon,
                            ),
                        ),
                        pending@[k],
                    ) by {
                        if k < listed.len() {
                            assert(pending@[k] == listed[k]);
                        } else {
                            assert(k - old(pending)@.len() == n);
                            assert(scatter.drawn_from(*cvars, before.normals@));
                        }
                    }
                }
                n += 1;
            }
        },
        Weapon::Gm => {
            pending.push(make_guided_round(cvars, trig, m, shooter.vel, id));
            proof {
                assert(pending@.take(old(pending)@.len() as int) =~= old(pending)@);
            }
        },
        Weapon::Rockets | Weapon::Hm | Weapon::Bfg => {
            pending.push(make_plain_round(cvars, trig, shooter.cur_weapon, m, shooter.vel, id));
            proof {
                assert(pending@.take(old(pending)@.len() as int) =~= old(pending)@);
            }
        },
    }
}

/// The number of rounds among `rounds` that the given vehicle has fired.
pub open spec fn rounds_owned(rounds: Seq<Projectile>, owner: legion::Entity) -> nat
    decreases rounds.len(),
{
    if rounds.len() == 0 {
        0
    } else if rounds.last().owner == owner {
        rounds_owned(rounds.drop_last(), owner) + 1
    } else {
        rounds_owned(rounds.drop_last(), owner)
    }
}

/// Rounds of one vehicle, put behind a list, add to that vehicle's count and to no other.
pub proof fn lemma_rounds_owned_grows(
    before: Seq<Projectile>,
    after: Seq<Projectile>,
    shooter: legion::Entity,
    owner: legion::Entity,
)
    requires
        before.len() <= after.len(),
        after.take(before.len() as int) == before,
        forall|k: int| before.len() <= k < after.len() ==> (#[trigger] after[k]).owner == shooter,
    ensures
        rounds_owned(after, owner) == rounds_owned(before, owner) + (if owner == shooter {
            after.len() - before.len()
        } else {
            0
        }),
    decreases after.len() - before.len(),
{
    if before.len() == after.len() {
        assert(after.take(before.len() as int) =~= after);
    } else {
        let shorter = after.drop_last();
        assert(shorter.take(before.len() as int) =~= before);
        lemma_rounds_owned_grows(before, shorter, shooter, owner);
        assert(after.last() == after[after.len() - 1]);
    }
}

/// The number of projectiles that the vehicles among `order` put into the
/// game this tick.
pub open spec fn total_rounds(
    cvars: Cvars,
    order: Seq<legion::Entity>,
    fleet: Map<legion::Entity, Vehicle>,
    player: legion::Entity,
    fire: bool,
    now: i64,
) -> nat
    decreases order.len(),
{
    if order.len() == 0 {
        0
    } else {
        total_rounds(cvars, order.drop_last(), fleet, player, fire, now) + rounds_fired(
            cvars,
            fleet[order.last()],
            order.last() == player,
            fire,
            now,
        )
    }
}

/// The number of normal deviates that the shots of the vehicles among
/// `order` take this tick.
pub open spec fn total_deviates(
    cvars: Cvars,
    order: Seq<legion::Entity>,
    fleet: Map<legion::Entity, Vehicle>,
    player: legion::Entity,
    fire: bool,
    now: i64,
) -> nat
    decreases order.len(),
{
    if order.len() == 0 {
        0
    } else {
        total_deviates(cvars, order.drop_last(), fleet, player, fire, now) + deviates_used(
            cvars,
            fleet[order.last()],
            order.last() == player,
            fire,
            now,
        )
    }
}

/// The most normal deviates that the shot of one vehicle can take,
/// whatever it fires: those of a cluster bomb, and at least the one of a
/// machine gun's round.
pub open spec fn most_deviates(cvars: Cvars) -> nat {
    let bomb = cvars.g_cluster_bomb_count as nat * scatter_deviates(cvars);
    if bomb >= 1 {
        bomb
    } else {
        1
    }
}

/// The shots of a tick take no more deviates than the most for every vehicle.
proof fn lemma_deviates_bounded(
    cvars: Cvars,
    order: Seq<legion::Entity>,
    fleet: Map<legion::Entity, Vehicle>,
    player: legion::Entity,
    fire: bool,
    now: i64,
)
    ensures
        total_deviates(cvars, order, fleet, player, fire, now) <= order.len() * most_deviates(cvars),
    decreases order.len(),
{
    let most = most_deviates(cvars);
    if order.len() > 0 {
        lemma_deviates_bounded(cvars, order.drop_last(), fleet, player, fire, now);
        assert(order.len() * most == (order.len() - 1) * most + most) by (nonlinear_arith);
    } else {
        assert(0 * most == 0);
    }
}

/// A stock of the most deviates for every vehicle that the store listed
/// before the tick serves every shot of the tick, as long as the store holds
/// the same vehicles when they shoot: the shots take no more than that,
/// whatever the vehicles have selected by then and in whatever order they
/// are visited, and so none of them finds the stock empty.
pub proof fn a_full_stock_serves_every_shot(
    cvars: Cvars,
    listed: Seq<legion::Entity>,
    before: Map<legion::Entity, Vehicle>,
    order: Seq<legion::Entity>,
    fleet: Map<legion::Entity, Vehicle>,
    player: legion::Entity,
    fire: bool,
    now: i64,
    normals: Seq<i64>,
)
    requires
        lists_keys(listed, before),
        lists_keys(order, fleet),
        before.dom() == fleet.dom(),
    ensures
        total_deviates(cvars, order, fleet, player, fire, now) <= listed.len() * most_deviates(cvars),
        normals.len() >= listed.len() * most_deviates(cvars) ==> after_draws(
            normals,
            total_deviates(cvars, order, fleet, player, fire, now),
        ).len() == normals.len() - total_deviates(cvars, order, fleet, player, fire, now),
{
    lemma_deviates_bounded(cvars, order, fleet, player, fire, now);
    listings_are_equally_long(listed, order, before, fleet);
}

/// The number of normal deviates that the host has to have in stock
/// before a tick, so that no shot of the tick goes without: the most that a
/// shot can take, for every vehicle in the store.
pub fn deviates_for_tick(cvars: &Cvars, world: &legion::World) -> (n: usize)
    ensures
        n == (if vehicle_order(*world).len() * most_deviates(*cvars) > usize::MAX {
            usize::MAX as int
        } else {
            (vehicle_order(*world).len() * most_deviates(*cvars)) as int
        }),
        lists_keys(vehicle_order(*world), vehicles_of(*world)),
{
    let ids = vehicle_ids(world);
    let per_bomblet: u64 = if cvars.g_cluster_bomb_speed_spread_gaussian {
        2
    } else {
        0
    };
    let bomb: u64 = (cvars.g_cluster_bomb_count as u64) * per_bomblet;
    let most: u64 = if bomb >= 1 {
        bomb
    } else {
        1
    };
    let count: usize = ids.len();
    assert(count <= 0xffff_ffff_ffff_ffff);
    assert(0 <= count * most <= 0xffff_ffff_ffff_ffff * 0x2_0000_0000) by (nonlinear_arith)
        requires
            0 <= count <= 0xffff_ffff_ffff_ffff,
            0 <= most <= 0x2_0000_0000,
    ;
    let total: u128 = (count as u128) * (most as u128);
    if total > usize::MAX as u128 {
        usize::MAX
    } else {
        total as usize
    }
}

/// The traces that the railguns of the vehicles among `order` leave this
/// tick, in that order.
pub open spec fn rail_traces(
    cvars: Cvars,
    trig: Trig,
    map: TileMap,
    order: Seq<legion::Entity>,
    fleet: Map<legion::Entity, Vehicle>,
    player: legion::Entity,
    fire: bool,
    now: i64,
) -> Seq<(Vec2, Vec2)>
    decreases order.len(),
{
    if order.len() == 0 {
        seq![]
    } else {
        rail_traces(cvars, trig, map, order.drop_last(), fleet, player, fire, now) + trace_of(
            cvars,
            trig,
            map,
            fleet[order.last()],
            order.last() == player,
            fire,
            now,
        )
    }
}

/// Whether `r` is a round of a vehicle of the fleet that fires this tick.
pub open spec fn fired_from(
    cvars: Cvars,
    trig: Trig,
    fleet: Map<legion::Entity, Vehicle>,
    player: legion::Entity,
    fire: bool,
    now: i64,
    r: Projectile,
) -> bool {
    &&& fleet.dom().contains(r.owner)
    &&& fires(fleet[r.owner], r.owner == player, fire, now)
    &&& is_round_of(cvars, trig, fleet[r.owner], r.owner, now, r)
}

/// The guided missile that the game follows once the rounds are in the
/// store: the last guided missile among them, or the one it followed before.
pub open spec fn followed(
    missile: Option<legion::Entity>,
    ids: Seq<legion::Entity>,
    rounds: Seq<Projectile>,
) -> Option<legion::Entity>
    decreases ids.len(),
{
    if ids.len() == 0 || rounds.len() != ids.len() {
        missile
    } else if rounds.last().weapon == Weapon::Gm {
        Some(ids.last())
    } else {
        followed(missile, ids.drop_last(), rounds.drop_last())
    }
}

/// The last `n` of the rounds.
pub open spec fn last_rounds(rounds: Seq<Projectile>, n: nat) -> Seq<Projectile> {
    rounds.skip(rounds.len() - n)
}

/// Whether `rounds` are the rounds that the vehicles among `order` fire, in
/// that order, when `normals` is the stock of normal deviates at the start:
/// each vehicle's rounds stand together, one after the other, and each
/// round is made from the deviates that the rounds before it have left.
pub open spec fn rounds_in_order(
    cvars: Cvars,
    trig: Trig,
    order: Seq<legion::Entity>,
    fleet: Map<legion::Entity, Vehicle>,
    player: legion::Entity,
    fire: bool,
    now: i64,
    normals: Seq<i64>,
    rounds: Seq<Projectile>,
) -> bool
    decreases order.len(),
{
    if order.len() == 0 {
        rounds.len() == 0
    } else {
        let shooter = order.last();
        let n = rounds_fired(cvars, fleet[shooter], shooter == player, fire, now);
        let pool = after_draws(
            normals,
            total_deviates(cvars, order.drop_last(), fleet, player, fire, now),
        );
        &&& n <= rounds.len()
        &&& rounds_in_order(
            cvars,
            trig,
            order.drop_last(),
            fleet,
            player,
            fire,
            now,
            normals,
            rounds.take(rounds.len() - n),
        )
        &&& forall|j: int|
            0 <= j < n ==> (#[trigger] last_rounds(rounds, n)[j]).owner == shooter && round_from(
                cvars,
                trig,
                fleet[shooter],
                shooter,
                now,
                after_draws(pool, j as nat * round_deviates(cvars, fleet[shooter].cur_weapon)),
                last_rounds(rounds, n)[j],
            )
    }
}

/// Whether a vehicle drops a cluster bomb this tick.
pub open spec fn drops_bombs(v: Vehicle, is_player: bool, fire: bool, now: i64) -> bool {
    fires(v, is_player, fire, now) && v.cur_weapon == Weapon::Cb
}

/// What a pass of shooting does to the projectiles in the store and to the
/// guided missile that the game follows, for the rounds that it has fired:
/// the rounds are in the store, every vehicle has fired as many of them as
/// its weapon puts out, they stand in the order of the vehicles and each is
/// made from the deviates that were in stock when its turn came, and the
/// game follows the last guided missile among them.
pub open spec fn shot_off(
    cvars: Cvars,
    trig: Trig,
    order: Seq<legion::Entity>,
    fleet: Map<legion::Entity, Vehicle>,
    before: Map<legion::Entity, Projectile>,
    after: Map<legion::Entity, Projectile>,
    missile_before: Option<legion::Entity>,
    missile_after: Option<legion::Entity>,
    player: legion::Entity,
    fire: bool,
    now: i64,
    normals: Seq<i64>,
    ids: Seq<legion::Entity>,
    rounds: Seq<Projectile>,
) -> bool {
    &&& rounds_landed(before, after, ids, rounds)
    &&& rounds.len() == total_rounds(cvars, order, fleet, player, fire, now)
    &&& rounds_in_order(cvars, trig, order, fleet, player, fire, now, normals, rounds)
    &&& forall|e: legion::Entity| #[trigger]
        fleet.dom().contains(e) ==> rounds_owned(rounds, e) == rounds_fired(
            cvars,
            fleet[e],
            e == player,
            fire,
            now,
        )
    &&& forall|k: int|
        0 <= k < rounds.len() ==> fired_from(cvars, trig, fleet, player, fire, now, #[trigger] rounds[k])
    &&& missile_after == followed(missile_before, ids, rounds)
}

/// Queues the rounds that a vehicle has fired behind those that wait for
/// the store already. The game follows the last guided missile among them.
fn enqueue(
    cmds: &mut legion::systems::CommandBuffer,
    gs: &mut GameState,
    fired: &Vec<Projectile>,
    Ghost(missile): Ghost<Option<legion::Entity>>,
) -> (ids: Ghost<Seq<legion::Entity>>)
    requires
        old(gs).guided_missile == followed(
            missile,
            waiting_ids(queued(*old(cmds))),
            waiting_rounds(queued(*old(cmds))),
        ),
    ensures
        ids@.len() == fired@.len(),
        waiting_ids(queued(*final(cmds))) == waiting_ids(queued(*old(cmds))) + ids@,
        waiting_rounds(queued(*final(cmds))) == waiting_rounds(queued(*old(cmds))) + fired@,
        holds_rounds_only(*final(cmds)) == holds_rounds_only(*old(cmds)),
        parent(*final(cmds)) == parent(*old(cmds)),
        final(gs).guided_missile == followed(
            missile,
            waiting_ids(queued(*final(cmds))),
            waiting_rounds(queued(*final(cmds))),
        ),
        final(gs).frame_time == old(gs).frame_time,
        final(gs).dt == old(gs).dt,
        final(gs).input == old(gs).input,
        final(gs).rng == old(gs).rng,
        final(gs).normals == old(gs).normals,
        final(gs).explosions == old(gs).explosions,
        final(gs).bfg_beams == old(gs).bfg_beams,
        final(gs).railguns == old(gs).railguns,
        final(gs).player_entity == old(gs).player_entity,
{
    let ghost waiting = queued(*cmds);
    let ghost mut ids: Seq<legion::Entity> = Seq::empty();
    let mut j: usize = 0;
    proof {
        assert(waiting_ids(waiting) + ids =~= waiting_ids(waiting));
        assert(waiting_rounds(waiting) + fired@.take(0) =~= waiting_rounds(waiting));
    }
    while j < fired.len()
        invariant
            0 <= j <= fired.len(),
            waiting == queued(*old(cmds)),
            ids.len() == j,
            waiting_ids(queued(*cmds)) == waiting_ids(waiting) + ids,
            waiting_rounds(queued(*cmds)) == waiting_rounds(waiting) + fired@.take(j as int),
            holds_rounds_only(*cmds) == holds_rounds_only(*old(cmds)),
            parent(*cmds) == parent(*old(cmds)),
            gs.guided_missile == followed(missile, waiting_ids(queued(*cmds)), waiting_rounds(queued(*cmds))),
            gs.frame_time == old(gs).frame_time,
            gs.dt == old(gs).dt,
            gs.input == old(gs).input,
            gs.rng == old(gs).rng,
            gs.normals == old(gs).normals,
            gs.explosions == old(gs).explosions,
            gs.bfg_beams == old(gs).bfg_beams,
            gs.railguns == old(gs).railguns,
            gs.player_entity == old(gs).player_entity,
        decreases fired.len() - j,
    {
        let round: Projectile = fired[j];
        let ghost held = queued(*cmds);
        let id = queue_projectile(cmds, round);
        if matches!(round.weapon, Weapon::Gm) {
            gs.guided_missile = Some(id);
        }
        proof {
            let now = queued(*cmds);
            assert(waiting_ids(now) =~= waiting_ids(held).push(id));
            assert(waiting_rounds(now) =~= waiting_rounds(held).push(round));
            assert(waiting_ids(now).drop_last() =~= waiting_ids(held));
            assert(waiting_rounds(now).drop_last() =~= waiting_rounds(held));
            assert(fired@.take(j + 1) =~= fired@.take(j as int).push(round));
            assert(waiting_ids(now) =~= waiting_ids(waiting) + ids.push(id));
            assert(waiting_rounds(now) =~= waiting_rounds(waiting) + fired@.take(j + 1));
            ids = ids.push(id);
        }
        j += 1;
    }
    proof {
        assert(fired@.take(fired.len() as int) =~= fired@);
    }
    Ghost(ids)
}

/// Lets every vehicle fire that does. The rounds wait in a command buffer
/// while the vehicles are looked at, and enter the store afterwards, in the
/// order in which they were fired.
pub fn shooting(
    cvars: &Cvars,
    world: &mut legion::World,
    gs: &mut GameState,
    map: &TileMap,
    trig: &Trig,
)
    ensures
        lists_keys(vehicle_order(*old(world)), vehicles_of(*old(world))),
        vehicles_of(*final(world)).dom() == vehicles_of(*old(world)).dom(),
        forall|e: legion::Entity| #[trigger]
            vehicles_of(*old(world)).dom().contains(e) ==> vehicles_of(*final(world))[e]
                == triggered(
                *cvars,
                vehicles_of(*old(world))[e],
                e == old(gs).player_entity,
                old(gs).input.fire,
                old(gs).frame_time,
            ),
        final(gs).railguns@ == old(gs).railguns@ + rail_traces(
            *cvars,
            *trig,
            *map,
            vehicle_order(*old(world)),
            vehicles_of(*old(world)),
            old(gs).player_entity,
            old(gs).input.fire,
            old(gs).frame_time,
        ),
        exists|ids: Seq<legion::Entity>, rounds: Seq<Projectile>| #[trigger]
            shot_off(
                *cvars,
                *trig,
                vehicle_order(*old(world)),
                vehicles_of(*old(world)),
                projectiles_of(*old(world)),
                projectiles_of(*final(world)),
                old(gs).guided_missile,
                final(gs).guided_missile,
                old(gs).player_entity,
                old(gs).input.fire,
                old(gs).frame_time,
                old(gs).normals@,
                ids,
                rounds,
            ),
        (forall|e: legion::Entity| #[trigger]
            vehicles_of(*old(world)).dom().contains(e) ==> !drops_bombs(
                vehicles_of(*old(world))[e],
                e == old(gs).player_entity,
                old(gs).input.fire,
                old(gs).frame_time,
            )) ==> final(gs).rng == old(gs).rng,
        final(gs).normals@ == after_draws(
            old(gs).normals@,
            total_deviates(
                *cvars,
                vehicle_order(*old(world)),
                vehicles_of(*old(world)),
                old(gs).player_entity,
                old(gs).input.fire,
                old(gs).frame_time,
            ),
        ),
        final(gs).frame_time == old(gs).frame_time,
        final(gs).dt == old(gs).dt,
        final(gs).input == old(gs).input,
        final(gs).explosions == old(gs).explosions,
        final(gs).bfg_beams == old(gs).bfg_beams,
        final(gs).player_entity == old(gs).player_entity,
{
    let mut cmds = new_buffer(world);
    let ghost mut pending: Seq<Projectile> = Seq::empty();
    let ghost mut spawned: Seq<legion::Entity> = Seq::empty();
    let ids = vehicle_ids(world);
    let ghost fleet = vehicles_of(*world);
    let ghost player = gs.player_entity;
    let ghost fire = gs.input.fire;
    let ghost now = gs.frame_time;
    let ghost f = |e: legion::Entity, v: Vehicle| triggered(*cvars, v, e == player, fire, now);
    proof {
        lemma_update_ends(fleet, fleet, ids@, f);
        assert(gs.railguns@ =~= old(gs).railguns@ + rail_traces(
            *cvars,
            *trig,
            *map,
            ids@.take(0),
            fleet,
            player,
            fire,
            now,
        ));
        lemma_after_draws(gs.normals@, 0, 0);
    }
    let mut i: usize = 0;
    while i < ids.len()
        invariant
            0 <= i <= ids.len(),
            lists_keys(ids@, fleet),
            ids@ == vehicle_order(*old(world)),
            fleet == vehicles_of(*old(world)),
            player == old(gs).player_entity,
            fire == old(gs).input.fire,
            now == old(gs).frame_time,
            f == (|e: legion::Entity, v: Vehicle| triggered(*cvars, v, e == player, fire, now)),
            updated_on(vehicles_of(*world), fleet, ids@.take(i as int), f),
            projectiles_of(*world) == projectiles_of(*old(world)),
            parent(cmds) == identity(*world),
            holds_rounds_only(cmds),
            waiting_ids(queued(cmds)) == spawned,
            waiting_rounds(queued(cmds)) == pending,
            pending.len() == total_rounds(*cvars, ids@.take(i as int), fleet, player, fire, now),
            rounds_in_order(
                *cvars,
                *trig,
                ids@.take(i as int),
                fleet,
                player,
                fire,
                now,
                old(gs).normals@,
                pending,
            ),
            (forall|e: legion::Entity| #[trigger]
                ids@.take(i as int).contains(e) ==> !drops_bombs(fleet[e], e == player, fire, now))
                ==> gs.rng == old(gs).rng,
            forall|e: legion::Entity| #[trigger]
                fleet.dom().contains(e) ==> rounds_owned(pending, e) == (if ids@.take(
                    i as int,
                ).contains(e) {
                    rounds_fired(*cvars, fleet[e], e == player, fire, now)
                } else {
                    0
                }),
            forall|k: int|
                0 <= k < pending.len() ==> fired_from(
                    *cvars,
                    *trig,
                    fleet,
                    player,
                    fire,
                    now,
                    #[trigger] pending[k],
                ),
            gs.railguns@ == old(gs).railguns@ + rail_traces(
                *cvars,
                *trig,
                *map,
                ids@.take(i as int),
                fleet,
                player,
                fire,
                now,
            ),
            gs.normals@ == after_draws(
                old(gs).normals@,
                total_deviates(*cvars, ids@.take(i as int), fleet, player, fire, now),
            ),
            gs.frame_time == old(gs).frame_time,
            gs.dt == old(gs).dt,
            gs.input == old(gs).input,
            gs.explosions == old(gs).explosions,
            gs.bfg_beams == old(gs).bfg_beams,
            gs.guided_missile == followed(old(gs).guided_missile, spawned, pending),
            gs.player_entity == old(gs).player_entity,
        decreases ids.len() - i,
    {
        let veh_id = ids[i];
        proof {
            lemma_update_step(vehicles_of(*world), fleet, ids@, i as int, f);
            assert(ids@.take(i + 1).drop_last() =~= ids@.take(i as int));
            assert(ids@.take(i + 1).last() == veh_id);
        }
        if let Some(mut vehicle) = read_vehicle(world, veh_id) {
            let ghost listed = pending;
            let ghost stock = gs.normals@;
            let mut fired: Vec<Projectile> = Vec::new();
            shoot(cvars, trig, map, gs, &mut vehicle, veh_id, &mut fired);
            write_vehicle(world, veh_id, vehicle);
            let queued_ids = enqueue(&mut cmds, gs, &fired, Ghost(old(gs).guided_missile));
            proof {
                pending = listed + fired@;
                spawned = spawned + queued_ids@;
                assert(pending.take(listed.len() as int) =~= listed);
                assert forall|k: int| listed.len() <= k < pending.len() implies #[trigger] pending[k]
                    == fired@[k - listed.len()] by {}
                lemma_after_draws(
                    old(gs).normals@,
                    total_deviates(*cvars, ids@.take(i as int), fleet, player, fire, now),
                    deviates_used(*cvars, fleet[veh_id], veh_id == player, fire, now),
                );
                assert(gs.railguns@ =~= old(gs).railguns@ + rail_traces(
                    *cvars,
                    *trig,
                    *map,
                    ids@.take(i + 1),
                    fleet,
                    player,
                    fire,
                    now,
                ));
                let head = ids@.take(i as int);
                let more = ids@.take(i + 1);
                let shots = rounds_fired(*cvars, fleet[veh_id], veh_id == player, fire, now);
                assert(more.drop_last() =~= head);
                assert(more[i as int] == veh_id);
                assert(pending.take(pending.len() - shots) =~= listed);
                assert forall|j: int| 0 <= j < shots implies (#[trigger] last_rounds(
                    pending,
                    shots,
                )[j]).owner == veh_id && round_from(
                    *cvars,
                    *trig,
                    fleet[veh_id],
                    veh_id,
                    now,
                    after_draws(
                        stock,
                        j as nat * round_deviates(*cvars, fleet[veh_id].cur_weapon),
                    ),
                    last_rounds(pending, shots)[j],
                ) by {
                    assert(last_rounds(pending, shots)[j] == pending[listed.len() + j]);
                    assert(pending[listed.len() + j] == fired@[j]);
                }
                assert(rounds_in_order(
                    *cvars,
                    *trig,
                    more,
                    fleet,
                    player,
                    fire,
                    now,
                    old(gs).normals@,
                    pending,
                ));
                if forall|e: legion::Entity| #[trigger]
                    more.contains(e) ==> !drops_bombs(fleet[e], e == player, fire, now) {
                    assert(more.contains(veh_id));
                    assert forall|e: legion::Entity| #[trigger] head.contains(e) implies !drops_bombs(
                        fleet[e],
                        e == player,
                        fire,
                        now,
                    ) by {
                        let k = choose|k: int| 0 <= k < head.len() && head[k] == e;
                        assert(more[k] == e);
                        assert(more.contains(e));
                    }
                }
                assert forall|e: legion::Entity| #[trigger] fleet.dom().contains(e) implies rounds_owned(
                    pending,
                    e,
                ) == (if ids@.take(i + 1).contains(e) {
                    rounds_fired(*cvars, fleet[e], e == player, fire, now)
                } else {
                    0
                }) by {
                    lemma_rounds_owned_grows(listed, pending, veh_id, e);
                    let head = ids@.take(i as int);
                    let more = ids@.take(i + 1);
                    assert(more[i as int] == veh_id);
                    if head.contains(e) {
                        let k = choose|k: int| 0 <= k < head.len() && head[k] == e;
                        assert(more[k] == e);
                        assert(ids@[k] == e);
                    }
                    if more.contains(e) && e != veh_id {
                        let k = choose|k: int| 0 <= k < more.len() && more[k] == e;
                        assert(head[k] == e);
                    }
                    if e == veh_id {
                        assert(!head.contains(e)) by {
                            if head.contains(e) {
                                let k = choose|k: int| 0 <= k < head.len() && head[k] == e;
                                assert(ids@[k] == ids@[i as int]);
                            }
                        }
                    }
                }
                assert forall|k: int| 0 <= k < pending.len() implies fired_from(
                    *cvars,
                    *trig,
                    fleet,
                    player,
                    fire,
                    now,
                    #[trigger] pending[k],
                ) by {
                    if k < listed.len() {
                        assert(pending.take(listed.len() as int)[k] == pending[k]);
                        assert(pending[k] == listed[k]);
                    } else {
                        assert(pending[k] == fired@[k - listed.len()]);
                        assert(pending[k].owner == veh_id);
                        assert(rounds_fired(*cvars, fleet[veh_id], veh_id == player, fire, now) > 0);
                    }
                }
            }
        }
        i += 1;
    }
    proof {
        assert(ids@.take(ids.len() as int) =~= ids@);
        lemma_update_ends(vehicles_of(*world), fleet, ids@, f);
    }
    let ghost before = projectiles_of(*world);
    flush_into(&mut cmds, world);
    proof {
        assert(rounds_landed(before, projectiles_of(*world), spawned, pending));
        assert(shot_off(
            *cvars,
            *trig,
            vehicle_order(*old(world)),
            vehicles_of(*old(world)),
            projectiles_of(*old(world)),
            projectiles_of(*world),
            old(gs).guided_missile,
            gs.guided_missile,
            old(gs).player_entity,
            old(gs).input.fire,
            old(gs).frame_time,
            old(gs).normals@,
            spawned,
            pending,
        ));
    }
}

/// Only the player's vehicle launches guided missiles: any other vehicle
/// with the guided missile selected does not fire, keeps its magazine and
/// puts nothing into the game; and every guided missile that is fired is
/// the player's.
pub proof fn only_player_launches_missiles(
    cvars: Cvars,
    trig: Trig,
    fleet: Map<legion::Entity, Vehicle>,
    v: Vehicle,
    player: legion::Entity,
    fire: bool,
    now: i64,
    r: Projectile,
)
    ensures
        v.cur_weapon == Weapon::Gm ==> !fires(v, false, fire, now) && triggered(
            cvars,
            v,
            false,
            fire,
            now,
        ) == v && rounds_fired(cvars, v, false, fire, now) == 0,
        fired_from(cvars, trig, fleet, player, fire, now, r) && r.weapon == Weapon::Gm ==> r.owner
            == player,
{
    if fired_from(cvars, trig, fleet, player, fire, now, r) && r.weapon == Weapon::Gm {
        lemma_round_keeps_weapon(cvars, trig, fleet[r.owner], r.owner, now, r);
    }
}

/// A round is of the weapon that fired it, and belongs to the vehicle that fired it.
pub proof fn lemma_round_keeps_weapon(
    cvars: Cvars,
    trig: Trig,
    v: Vehicle,
    owner: legion::Entity,
    now: i64,
    r: Projectile,
)
    requires
        is_round_of(cvars, trig, v, owner, now, r),
    ensures
        r.weapon == v.cur_weapon,
        r.owner == owner,
        r.pos == muzzle(cvars, trig, v).origin,
        r.weapon == Weapon::Cb <==> r.expiry is Some,
        r.weapon == Weapon::Gm <==> r.guidance is Some,
{
}

/// A magazine with one shot left, fired at the very time it becomes ready,
/// goes into reloading and cannot be fired again; once the reload has
/// ended, the vehicle's logic leaves a full magazine that is ready at once.
pub proof fn last_shot_reloads(cvars: Cvars, weapon: Weapon, ready_time: i64, later: i64)
    ensures
        ready(Ammo::Loaded(ready_time, 1), ready_time),
        ammo_after_shot(cvars, weapon, Ammo::Loaded(ready_time, 1), ready_time) == Ammo::Reloading(
            ready_time,
            sat(ready_time + cvars.reload_time(weapon)) as i64,
        ),
        !ready(
            ammo_after_shot(cvars, weapon, Ammo::Loaded(ready_time, 1), ready_time),
            later,
        ),
        later >= sat(ready_time + cvars.reload_time(weapon))
            ==> crate::systems::vehicle_logic::reloaded(
            cvars,
            weapon,
            ammo_after_shot(cvars, weapon, Ammo::Loaded(ready_time, 1), ready_time),
            later,
        ) == Ammo::Loaded(later, cvars.reload_ammo(weapon)),
        later < sat(ready_time + cvars.reload_time(weapon))
            ==> crate::systems::vehicle_logic::reloaded(
            cvars,
            weapon,
            ammo_after_shot(cvars, weapon, Ammo::Loaded(ready_time, 1), ready_time),
            later,
        ) == ammo_after_shot(cvars, weapon, Ammo::Loaded(ready_time, 1), ready_time),
{
}

} // verus!
