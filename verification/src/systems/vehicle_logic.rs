//! What a vehicle does each tick besides moving: it switches weapons, turns
//! its turret and finishes the reloads that have ended.
use vstd::prelude::*;
use crate::components::{set_ammo, Ammo, Input, Vehicle, Weapon, WEAPS_CNT};
use crate::cvars::Cvars;
use crate::fixed::{fx_add, fx_mul, fx_sub, product, sat};
use crate::game_state::GameState;
use crate::store::{
    lemma_update_ends, lemma_update_step, lists_keys, projectiles_of, read_vehicle, updated_on,
    vehicle_ids, vehicle_order, vehicles_of, write_vehicle,
};

verus! {

/// The weapon selected after the switch controls are read: a control counts
/// only in the tick in which it goes down. Both controls together step back
/// and then forward.
pub open spec fn weapon_switched(weapon: Weapon, input: Input, prev: Input) -> Weapon {
    let stepped_back = if input.prev_weapon && !prev.prev_weapon {
        weapon.preceding()
    } else {
        weapon
    };
    if input.next_weapon && !prev.next_weapon {
        stepped_back.following()
    } else {
        stepped_back
    }
}

/// The turret's angle after the turret controls are read: it moves by the
/// turret's speed times the frame's length for each control that is held.
pub open spec fn turret_turned(angle: int, input: Input, speed: int, dt: int) -> int {
    let left = if input.turret_left {
        sat(angle - product(speed, dt))
    } else {
        angle
    };
    if input.turret_right {
        sat(left + product(speed, dt))
    } else {
        left
    }
}

/// The magazine once reloading is looked at: a reload whose end has come
/// leaves a full magazine that is ready at once.
pub open spec fn reloaded(cvars: Cvars, weapon: Weapon, ammo: Ammo, now: i64) -> Ammo {
    match ammo {
        Ammo::Reloading(_, end) => if now >= end {
            Ammo::Loaded(now, cvars.reload_ammo(weapon))
        } else {
            ammo
        },
        Ammo::Loaded(_, _) => ammo,
    }
}

/// The magazines once reloading is looked at: each of them, whether its
/// weapon is selected or not, is refilled if its reload has ended.
pub open spec fn all_reloaded(cvars: Cvars, ammos: [Ammo; 7], now: i64) -> [Ammo; 7] {
    [
        reloaded(cvars, Weapon::at(0), ammos@[0], now),
        reloaded(cvars, Weapon::at(1), ammos@[1], now),
        reloaded(cvars, Weapon::at(2), ammos@[2], now),
        reloaded(cvars, Weapon::at(3), ammos@[3], now),
        reloaded(cvars, Weapon::at(4), ammos@[4], now),
        reloaded(cvars, Weapon::at(5), ammos@[5], now),
        reloaded(cvars, Weapon::at(6), ammos@[6], now),
    ]
}

/// The vehicle after its logic has run for one tick.
pub open spec fn vehicle_ticked(
    cvars: Cvars,
    v: Vehicle,
    player: Input,
    prev: Input,
    dt: i64,
    now: i64,
) -> Vehicle {
    Vehicle {
        cur_weapon: weapon_switched(v.cur_weapon, v.input, prev),
        turret_angle: turret_turned(
            v.turret_angle as int,
            player,
            cvars.g_turret_turn_speed as int,
            dt as int,
        ) as i64,
        ammos: all_reloaded(cvars, v.ammos, now),
        ..v
    }
}

/// Finishes the reload of every magazine whose reload has ended.
pub fn reload_all(cvars: &Cvars, ammos: &mut [Ammo; 7], now: i64)
    ensures
        *final(ammos) == all_reloaded(*cvars, *old(ammos), now),
        forall|i: int|
            0 <= i < 7 ==> #[trigger] final(ammos)@[i] == reloaded(
                *cvars,
                Weapon::at(i),
                old(ammos)@[i],
                now,
            ),
{
    let mut i: u8 = 0;
    while i < WEAPS_CNT
        invariant
            0 <= i <= 7,
            forall|j: int|
                0 <= j < i ==> #[trigger] ammos@[j] == reloaded(
                    *cvars,
                    Weapon::at(j),
                    old(ammos)@[j],
                    now,
                ),
            forall|j: int| i <= j < 7 ==> #[trigger] ammos@[j] == old(ammos)@[j],
        decreases 7 - i,
    {
        if let Some(weapon) = Weapon::n(i) {
            let slot: usize = weapon.index();
            match ammos[slot] {
                Ammo::Reloading(_, end) => {
                    if now >= end {
                        let full: u32 = cvars.g_weapon_reload_ammo(weapon);
                        set_ammo(ammos, slot, Ammo::Loaded(now, full));
                    }
                },
                Ammo::Loaded(_, _) => {},
            }
        }
        i += 1;
    }
    assert(ammos@ =~= all_reloaded(*cvars, *old(ammos), now)@);
    assert(*ammos =~= all_reloaded(*cvars, *old(ammos), now));
}

/// Runs one vehicle's logic for one tick: weapon switching from the
/// vehicle's own controls against those of the previous frame, turret
/// turning from the player's controls, and the end of reloading for every
/// magazine.
pub fn tick_vehicle(
    cvars: &Cvars,
    vehicle: &mut Vehicle,
    player: &Input,
    prev: &Input,
    dt: i64,
    now: i64,
)
    ensures
        *final(vehicle) == vehicle_ticked(*cvars, *old(vehicle), *player, *prev, dt, now),
{
    // Change weapon
    if vehicle.input.prev_weapon && !prev.prev_weapon {
        vehicle.cur_weapon = vehicle.cur_weapon.prev();
    }
    if vehicle.input.next_weapon && !prev.next_weapon {
        vehicle.cur_weapon = vehicle.cur_weapon.next();
    }

    // Turret turning
    if player.turret_left {
        vehicle.turret_angle = fx_sub(vehicle.turret_angle, fx_mul(cvars.g_turret_turn_speed, dt));
    }
    if player.turret_right {
        vehicle.turret_angle = fx_add(vehicle.turret_angle, fx_mul(cvars.g_turret_turn_speed, dt));
    }

    // Reloading
    reload_all(cvars, &mut vehicle.ammos, now);
}

/// Every magazine whose reload has ended is full and ready after the
/// vehicle's logic has run, whichever weapon is selected; every other
/// magazine is as it was.
pub proof fn every_finished_reload_completes(
    cvars: Cvars,
    v: Vehicle,
    player: Input,
    prev: Input,
    dt: i64,
    now: i64,
    weapon: Weapon,
)
    ensures
        vehicle_ticked(cvars, v, player, prev, dt, now).ammos@[weapon.ordinal()] == reloaded(
            cvars,
            weapon,
            v.ammos@[weapon.ordinal()],
            now,
        ),
        v.ammos@[weapon.ordinal()] matches Ammo::Reloading(_, end) && now >= end ==> vehicle_ticked(
            cvars,
            v,
            player,
            prev,
            dt,
            now,
        ).ammos@[weapon.ordinal()] == Ammo::Loaded(now, cvars.reload_ammo(weapon)),
{
}

/// Runs the logic of every vehicle, destroyed or not, for one tick.
pub fn vehicle_logic(
    cvars: &Cvars,
    world: &mut legion::World,
    gs: &mut GameState,
    gs_prev: &GameState,
)
    ensures
        lists_keys(vehicle_order(*old(world)), vehicles_of(*old(world))),
        vehicles_of(*final(world)).dom() == vehicles_of(*old(world)).dom(),
        forall|e: legion::Entity| #[trigger]
            vehicles_of(*old(world)).dom().contains(e) ==> vehicles_of(*final(world))[e]
                == vehicle_ticked(
                *cvars,
                vehicles_of(*old(world))[e],
                old(gs).input,
                gs_prev.input,
                old(gs).dt,
                old(gs).frame_time,
            ),
        projectiles_of(*final(world)) == projectiles_of(*old(world)),
        *final(gs) == *old(gs),
{
    let ids = vehicle_ids(world);
    let ghost before = vehicles_of(*world);
    let ghost f = |e: legion::Entity, v: Vehicle|
        vehicle_ticked(*cvars, v, gs.input, gs_prev.input, gs.dt, gs.frame_time);
    proof {
        lemma_update_ends(before, before, ids@, f);
    }
    let mut i: usize = 0;
    while i < ids.len()
        invariant
            0 <= i <= ids.len(),
            lists_keys(ids@, before),
            *gs == *old(gs),
            f == (|e: legion::Entity, v: Vehicle|
                vehicle_ticked(*cvars, v, gs.input, gs_prev.input, gs.dt, gs.frame_time)),
            updated_on(vehicles_of(*world), before, ids@.take(i as int), f),
            projectiles_of(*world) == projectiles_of(*old(world)),
        decreases ids.len() - i,
    {
        let id = ids[i];
        proof {
            lemma_update_step(vehicles_of(*world), before, ids@, i as int, f);
        }
        if let Some(mut vehicle) = read_vehicle(world, id) {
            tick_vehicle(cvars, &mut vehicle, &gs.input, &gs_prev.input, gs.dt, gs.frame_time);
            write_vehicle(world, id, vehicle);
        }
        i += 1;
    }
    proof {
        lemma_update_ends(vehicles_of(*world), before, ids@, f);
    }
}

} // verus!
