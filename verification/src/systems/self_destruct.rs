//! Vehicles that blow themselves up.
use vstd::prelude::*;
use crate::components::{Input, Vehicle};
use crate::cvars::Cvars;
use crate::game_state::{Explosion, GameState};
use crate::store::{
    lemma_update_ends, lemma_update_step, lists_keys, projectiles_of, read_vehicle, updated_on,
    vehicle_ids, vehicle_order, vehicles_of, write_vehicle,
};

verus! {

/// Whether a vehicle blows itself up: the control is held and the vehicle is still whole.
pub open spec fn destructs(v: Vehicle, input: Input) -> bool {
    input.self_destruct && !v.destroyed
}

/// The vehicle after the step: destroyed if it blows itself up, else as it was.
pub open spec fn self_destructed(v: Vehicle, input: Input) -> Vehicle {
    if destructs(v, input) {
        Vehicle { destroyed: true, ..v }
    } else {
        v
    }
}

/// The two explosions of a vehicle that blows itself up: the first and the
/// second blast, both at the vehicle's position and at the current time.
pub open spec fn double_blast(cvars: Cvars, v: Vehicle, now: i64) -> Seq<Explosion> {
    seq![
        Explosion {
            pos: v.pos,
            scale: cvars.g_self_destruct_explosion1_scale,
            start_time: now,
            bfg: false,
        },
        Explosion {
            pos: v.pos,
            scale: cvars.g_self_destruct_explosion2_scale,
            start_time: now,
            bfg: false,
        },
    ]
}

/// The explosions of all vehicles that blow themselves up, in the order in
/// which the vehicles are visited.
pub open spec fn self_destruct_blasts(
    cvars: Cvars,
    order: Seq<legion::Entity>,
    fleet: Map<legion::Entity, Vehicle>,
    input: Input,
    now: i64,
) -> Seq<Explosion>
    decreases order.len(),
{
    if order.len() == 0 {
        seq![]
    } else {
        let rest = self_destruct_blasts(cvars, order.drop_last(), fleet, input, now);
        if destructs(fleet[order.last()], input) {
            rest + double_blast(cvars, fleet[order.last()], now)
        } else {
            rest
        }
    }
}

/// Destroys every vehicle that is still whole while the self-destruct
/// control is held, and queues its two explosions.
pub fn self_destruct(cvars: &Cvars, world: &mut legion::World, gs: &mut GameState)
    ensures
        lists_keys(vehicle_order(*old(world)), vehicles_of(*old(world))),
        vehicles_of(*final(world)).dom() == vehicles_of(*old(world)).dom(),
        forall|e: legion::Entity| #[trigger]
            vehicles_of(*old(world)).dom().contains(e) ==> vehicles_of(*final(world))[e]
                == self_destructed(vehicles_of(*old(world))[e], old(gs).input),
        projectiles_of(*final(world)) == projectiles_of(*old(world)),
        final(gs).explosions@ == old(gs).explosions@ + self_destruct_blasts(
            *cvars,
            vehicle_order(*old(world)),
            vehicles_of(*old(world)),
            old(gs).input,
            old(gs).frame_time,
        ),
        final(gs).same_but_events(*old(gs)),
        final(gs).bfg_beams == old(gs).bfg_beams,
        final(gs).railguns == old(gs).railguns,
{
    let ids = vehicle_ids(world);
    let ghost before = vehicles_of(*world);
    let ghost input = gs.input;
    let ghost f = |e: legion::Entity, v: Vehicle| self_destructed(v, input);
    proof {
        lemma_update_ends(before, before, ids@, f);
        assert(ids@.take(0) =~= Seq::<legion::Entity>::empty());
    }
    let mut i: usize = 0;
    while i < ids.len()
        invariant
            0 <= i <= ids.len(),
            lists_keys(ids@, before),
            input == old(gs).input,
            f == (|e: legion::Entity, v: Vehicle| self_destructed(v, input)),
            updated_on(vehicles_of(*world), before, ids@.take(i as int), f),
            projectiles_of(*world) == projectiles_of(*old(world)),
            gs.explosions@ == old(gs).explosions@ + self_destruct_blasts(
                *cvars,
                ids@.take(i as int),
                before,
                input,
                old(gs).frame_time,
            ),
            gs.same_but_events(*old(gs)),
            gs.bfg_beams == old(gs).bfg_beams,
            gs.railguns == old(gs).railguns,
        decreases ids.len() - i,
    {
        let id = ids[i];
        proof {
            lemma_update_step(vehicles_of(*world), before, ids@, i as int, f);
            assert(ids@.take(i + 1).drop_last() =~= ids@.take(i as int));
            assert(ids@.take(i + 1).last() == id);
        }
        if let Some(mut vehicle) = read_vehicle(world, id) {
            if gs.input.self_destruct && !vehicle.destroyed {
                vehicle.destroyed = true;
                gs.explosions.push(
                    Explosion::new(
                        vehicle.pos,
                        cvars.g_self_destruct_explosion1_scale,
                        gs.frame_time,
                        false,
                    ),
                );
                gs.explosions.push(
                    Explosion::new(
                        vehicle.pos,
                        cvars.g_self_destruct_explosion2_scale,
                        gs.frame_time,
                        false,
                    ),
                );
                assert(gs.explosions@ =~= old(gs).explosions@ + self_destruct_blasts(
                    *cvars,
                    ids@.take(i + 1),
                    before,
                    input,
                    old(gs).frame_time,
                ));
            }
            write_vehicle(world, id, vehicle);
        }
        i += 1;
    }
    proof {
        lemma_update_ends(vehicles_of(*world), before, ids@, f);
        assert(ids@.take(ids.len() as int) =~= ids@);
    }
}

} // verus!
