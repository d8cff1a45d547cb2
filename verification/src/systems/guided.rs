//! How the guided missile is steered.
use vstd::prelude::*;
use crate::components::{axis, Guidance, Projectile};
use crate::cvars::{Cvars, MovementStats};
use crate::game_state::GameState;
use crate::kinematics::{
    accel_decel, heading_after, turn_over, turn_rate_after, turning, velocity_after,
    velocity_turned,
};
use crate::store::{
    lemma_update_ends, lemma_update_step, lists_keys, projectile_ids, projectile_order,
    projectiles_of,
    read_projectile, updated_on, vehicles_of, write_projectile,
};
use crate::trig::Trig;
use crate::vec2::Vec2;

verus! {

/// The turn rate of a steered projectile after one tick.
pub open spec fn steered_rate(stats: MovementStats, g: Guidance, dt: int) -> int {
    turn_rate_after(stats, g.turn_rate as int, axis(g.input.right, g.input.left), dt)
}

/// The heading of a steered projectile after one tick; nothing stands in its way.
pub open spec fn steered_heading(stats: MovementStats, g: Guidance, dt: int) -> int {
    heading_after(g.angle as int, turn_over(steered_rate(stats, g, dt), dt))
}

/// A projectile after one tick of steering: one that carries guidance turns
/// and accelerates by its own controls, any other stays as it is.
pub open spec fn missile_steered(stats: MovementStats, trig: Trig, p: Projectile, dt: int) -> Projectile {
    match p.guidance {
        Some(g) => Projectile {
            vel: velocity_after(
                stats,
                trig,
                velocity_turned(stats, trig, p.vel, turn_over(steered_rate(stats, g, dt), dt)),
                steered_heading(stats, g, dt),
                axis(g.input.up, g.input.down),
                dt,
            ),
            guidance: Some(
                Guidance {
                    angle: steered_heading(stats, g, dt) as i64,
                    turn_rate: steered_rate(stats, g, dt) as i64,
                    input: g.input,
                },
            ),
            ..p
        },
        None => p,
    }
}

/// Steers one projectile for one tick.
pub fn steer_missile(stats: &MovementStats, trig: &Trig, projectile: &mut Projectile, dt: i64)
    ensures
        *final(projectile) == missile_steered(*stats, *trig, *old(projectile), dt as int),
        final(projectile).guidance matches Some(g) ==> 0 <= g.angle < crate::fixed::TAU,
{
    if let Some(guidance) = projectile.guidance {
        let mut vel: Vec2 = projectile.vel;
        let mut turn_rate: i64 = guidance.turn_rate;
        let angle: i64 = turning(
            stats,
            trig,
            &mut vel,
            guidance.angle,
            &mut turn_rate,
            &guidance.input,
            dt,
        );
        accel_decel(stats, trig, &mut vel, angle, &guidance.input, dt);
        projectile.vel = vel;
        projectile.guidance = Some(Guidance { angle, turn_rate, input: guidance.input });
    }
}

/// Steers every projectile that carries guidance for one tick.
pub fn gm_turning(cvars: &Cvars, world: &mut legion::World, gs: &GameState, trig: &Trig)
    ensures
        lists_keys(projectile_order(*old(world)), projectiles_of(*old(world))),
        projectiles_of(*final(world)).dom() == projectiles_of(*old(world)).dom(),
        forall|e: legion::Entity| #[trigger]
            projectiles_of(*old(world)).dom().contains(e) ==> projectiles_of(*final(world))[e]
                == missile_steered(
                cvars.g_weapon_movement,
                *trig,
                projectiles_of(*old(world))[e],
                gs.dt as int,
            ),
        vehicles_of(*final(world)) == vehicles_of(*old(world)),
{
    let ids = projectile_ids(world);
    let ghost before = projectiles_of(*world);
    let ghost f = |e: legion::Entity, p: Projectile| missile_steered(cvars.g_weapon_movement, *trig, p, gs.dt as int);
    proof {
        lemma_update_ends(before, before, ids@, f);
    }
    let mut i: usize = 0;
    while i < ids.len()
        invariant
            0 <= i <= ids.len(),
            lists_keys(ids@, before),
            f == (|e: legion::Entity, p: Projectile|
                missile_steered(cvars.g_weapon_movement, *trig, p, gs.dt as int)),
            updated_on(projectiles_of(*world), before, ids@.take(i as int), f),
            vehicles_of(*world) == vehicles_of(*old(world)),
        decreases ids.len() - i,
    {
        let id = ids[i];
        proof {
            lemma_update_step(projectiles_of(*world), before, ids@, i as int, f);
        }
        if let Some(mut projectile) = read_projectile(world, id) {
            let stats = cvars.g_weapon_movement_stats();
            steer_missile(&stats, trig, &mut projectile, gs.dt);
            write_projectile(world, id, projectile);
        }
        i += 1;
    }
    proof {
        lemma_update_ends(projectiles_of(*world), before, ids@, f);
    }
}

} // verus!
