//! What happens when a projectile leaves the game.
use vstd::prelude::*;
use crate::components::Weapon;
use crate::cvars::Cvars;
use crate::game_state::{Explosion, GameState};
use crate::store::same_entity;
use crate::vec2::Vec2;

verus! {

/// The explosion that a projectile of the given weapon leaves at `pos`, if
/// its weapon explodes; the BFG's is marked as such.
pub open spec fn blast(cvars: Cvars, weapon: Weapon, pos: Vec2, now: i64) -> Seq<Explosion> {
    match cvars.explosion_scale(weapon) {
        Some(scale) => seq![
            Explosion { pos, scale, start_time: now, bfg: weapon == Weapon::Bfg },
        ],
        None => seq![],
    }
}

/// The guided missile that the game still follows once `entity` has left it.
pub open spec fn missile_without(
    missile: Option<legion::Entity>,
    entity: legion::Entity,
) -> Option<legion::Entity> {
    if missile == Some(entity) {
        None
    } else {
        missile
    }
}

/// Takes a projectile out of the game at `pos`: its explosion, if its weapon
/// explodes, is queued; if it is the guided missile that the game follows, the game
/// follows none; and it is put on the list of entities to remove from the store.
pub fn remove_projectile(
    cvars: &Cvars,
    gs: &mut GameState,
    to_remove: &mut Vec<legion::Entity>,
    entity: legion::Entity,
    weap: Weapon,
    pos: Vec2,
)
    ensures
        final(gs).explosions@ == old(gs).explosions@ + blast(*cvars, weap, pos, old(gs).frame_time),
        final(gs).guided_missile == missile_without(old(gs).guided_missile, entity),
        final(to_remove)@ == old(to_remove)@.push(entity),
        final(gs).frame_time == old(gs).frame_time,
        final(gs).dt == old(gs).dt,
        final(gs).input == old(gs).input,
        final(gs).rng == old(gs).rng,
        final(gs).normals == old(gs).normals,
        final(gs).bfg_beams == old(gs).bfg_beams,
        final(gs).railguns == old(gs).railguns,
        final(gs).player_entity == old(gs).player_entity,
{
    if let Some(expl_scale) = cvars.g_weapon_explosion_scale(weap) {
        let bfg: bool = matches!(weap, Weapon::Bfg);
        gs.explosions.push(Explosion::new(pos, expl_scale, gs.frame_time, bfg));
    }
    assert(gs.explosions@ =~= old(gs).explosions@ + blast(*cvars, weap, pos, old(gs).frame_time));
    if let Some(missile) = gs.guided_missile {
        if same_entity(missile, entity) {
            gs.guided_missile = None;
        }
    }
    to_remove.push(entity);
}

} // verus!
