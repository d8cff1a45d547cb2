//! Projectiles that run out of time.
use vstd::prelude::*;
use crate::components::Projectile;
use crate::cvars::Cvars;
use crate::game_state::{Explosion, GameState};
use crate::store::{
    lists_keys, projectile_ids, projectile_order, projectiles_of, read_projectile,
    remove_all, vehicles_of,
};
use crate::systems::removal::{blast, missile_without, remove_projectile};

verus! {

/// Whether a projectile has outlived its time: it has an expiry and the
/// current time lies after it.
pub open spec fn expired(p: Projectile, now: i64) -> bool {
    match p.expiry {
        Some(end) => now > end,
        None => false,
    }
}

/// The projectiles among `order` that have outlived their time, in that order.
pub open spec fn expired_ids(
    order: Seq<legion::Entity>,
    shots: Map<legion::Entity, Projectile>,
    now: i64,
) -> Seq<legion::Entity>
    decreases order.len(),
{
    if order.len() == 0 {
        seq![]
    } else {
        let rest = expired_ids(order.drop_last(), shots, now);
        if shots.dom().contains(order.last()) && expired(shots[order.last()], now) {
            rest.push(order.last())
        } else {
            rest
        }
    }
}

/// The explosions that the projectiles among `order` leave where they run
/// out of time, in that order.
pub open spec fn timeout_blasts(
    cvars: Cvars,
    order: Seq<legion::Entity>,
    shots: Map<legion::Entity, Projectile>,
    now: i64,
) -> Seq<Explosion>
    decreases order.len(),
{
    if order.len() == 0 {
        seq![]
    } else {
        let rest = timeout_blasts(cvars, order.drop_last(), shots, now);
        if shots.dom().contains(order.last()) && expired(shots[order.last()], now) {
            rest + blast(cvars, shots[order.last()].weapon, shots[order.last()].pos, now)
        } else {
            rest
        }
    }
}

/// The guided missile that the game still follows once the entities of
/// `removed` have left it.
pub open spec fn missile_after(
    missile: Option<legion::Entity>,
    removed: Seq<legion::Entity>,
) -> Option<legion::Entity> {
    match missile {
        Some(id) => if removed.contains(id) {
            None
        } else {
            missile
        },
        None => None,
    }
}

/// The game never follows a guided missile that has left it.
pub proof fn a_removed_missile_is_forgotten(
    missile: Option<legion::Entity>,
    removed: Seq<legion::Entity>,
)
    ensures
        missile_after(missile, removed) matches Some(id) ==> !removed.contains(id) && missile
            == Some(id),
        missile is None ==> missile_after(missile, removed) is None,
{
}

/// An entity is among the expired ones exactly if it is listed, is a
/// projectile and has outlived its time.
pub proof fn lemma_expired_ids(
    order: Seq<legion::Entity>,
    shots: Map<legion::Entity, Projectile>,
    now: i64,
    e: legion::Entity,
)
    ensures
        expired_ids(order, shots, now).contains(e) <==> (order.contains(e) && shots.dom().contains(
            e,
        ) && expired(shots[e], now)),
    decreases order.len(),
{
    if order.len() > 0 {
        let head = order.drop_last();
        let rest = expired_ids(head, shots, now);
        lemma_expired_ids(head, shots, now, e);
        if order.contains(e) {
            let k = choose|k: int| 0 <= k < order.len() && order[k] == e;
            if k < order.len() - 1 {
                assert(head[k] == e);
            }
        }
        if head.contains(e) {
            let k = choose|k: int| 0 <= k < head.len() && head[k] == e;
            assert(order[k] == e);
        }
        assert(order[order.len() - 1] == order.last());
        if shots.dom().contains(order.last()) && expired(shots[order.last()], now) {
            let all = rest.push(order.last());
            assert(all[rest.len() as int] == order.last());
            if all.contains(e) {
                let k = choose|k: int| 0 <= k < all.len() && all[k] == e;
                if k < rest.len() {
                    assert(rest[k] == e);
                }
            }
            if rest.contains(e) {
                let k = choose|k: int| 0 <= k < rest.len() && rest[k] == e;
                assert(all[k] == e);
            }
        }
    }
}

/// Where no projectile has outlived its time, the timeout finds none to
/// remove and no explosion to queue: run a second time in the same tick, it
/// changes nothing.
pub proof fn timeout_settles(
    cvars: Cvars,
    order: Seq<legion::Entity>,
    shots: Map<legion::Entity, Projectile>,
    missile: Option<legion::Entity>,
    now: i64,
)
    requires
        forall|e: legion::Entity| #[trigger] shots.dom().contains(e) ==> !expired(shots[e], now),
    ensures
        expired_ids(order, shots, now) == Seq::<legion::Entity>::empty(),
        timeout_blasts(cvars, order, shots, now) == Seq::<Explosion>::empty(),
        shots.remove_keys(expired_ids(order, shots, now).to_set()) == shots,
        missile_after(missile, expired_ids(order, shots, now)) == missile,
    decreases order.len(),
{
    if order.len() > 0 {
        timeout_settles(cvars, order.drop_last(), shots, missile, now);
    }
    assert(expired_ids(order, shots, now) =~= Seq::<legion::Entity>::empty());
    assert(timeout_blasts(cvars, order, shots, now) =~= Seq::<Explosion>::empty());
    assert(Seq::<legion::Entity>::empty().to_set() =~= Set::<legion::Entity>::empty());
    assert(shots.remove_keys(Set::<legion::Entity>::empty()) =~= shots);
}

/// Removes every projectile whose time has run out, as a collision with the
/// map at its position would: its explosion is queued, and it leaves the
/// store once all projectiles have been looked at.
pub fn projectiles_timeout(cvars: &Cvars, world: &mut legion::World, gs: &mut GameState)
    ensures
        lists_keys(projectile_order(*old(world)), projectiles_of(*old(world))),
        projectiles_of(*final(world)) == projectiles_of(*old(world)).remove_keys(
            expired_ids(
                projectile_order(*old(world)),
                projectiles_of(*old(world)),
                old(gs).frame_time,
            ).to_set(),
        ),
        vehicles_of(*final(world)) == vehicles_of(*old(world)).remove_keys(
            expired_ids(
                projectile_order(*old(world)),
                projectiles_of(*old(world)),
                old(gs).frame_time,
            ).to_set(),
        ),
        forall|e: legion::Entity| #[trigger]
            projectiles_of(*final(world)).dom().contains(e) ==> !expired(
                projectiles_of(*final(world))[e],
                old(gs).frame_time,
            ),
        final(gs).explosions@ == old(gs).explosions@ + timeout_blasts(
            *cvars,
            projectile_order(*old(world)),
            projectiles_of(*old(world)),
            old(gs).frame_time,
        ),
        final(gs).guided_missile == missile_after(
            old(gs).guided_missile,
            expired_ids(
                projectile_order(*old(world)),
                projectiles_of(*old(world)),
                old(gs).frame_time,
            ),
        ),
        final(gs).frame_time == old(gs).frame_time,
        final(gs).dt == old(gs).dt,
        final(gs).input == old(gs).input,
        final(gs).rng == old(gs).rng,
        final(gs).normals == old(gs).normals,
        final(gs).bfg_beams == old(gs).bfg_beams,
        final(gs).railguns == old(gs).railguns,
        final(gs).player_entity == old(gs).player_entity,
{
    let mut to_remove: Vec<legion::Entity> = Vec::new();
    let ids = projectile_ids(world);
    let ghost shots = projectiles_of(*world);
    let ghost now = gs.frame_time;
    let mut i: usize = 0;
    proof {
        assert(gs.explosions@ =~= old(gs).explosions@ + timeout_blasts(
            *cvars,
            ids@.take(0),
            shots,
            now,
        ));
    }
    while i < ids.len()
        invariant
            0 <= i <= ids.len(),
            lists_keys(ids@, shots),
            shots == projectiles_of(*world),
            now == old(gs).frame_time,
            to_remove@ == expired_ids(ids@.take(i as int), shots, now),
            gs.explosions@ == old(gs).explosions@ + timeout_blasts(
                *cvars,
                ids@.take(i as int),
                shots,
                now,
            ),
            gs.guided_missile == missile_after(old(gs).guided_missile, to_remove@),
            gs.frame_time == old(gs).frame_time,
            gs.dt == old(gs).dt,
            gs.input == old(gs).input,
            gs.rng == old(gs).rng,
            gs.normals == old(gs).normals,
            gs.bfg_beams == old(gs).bfg_beams,
            gs.railguns == old(gs).railguns,
            gs.player_entity == old(gs).player_entity,
        decreases ids.len() - i,
    {
        let id = ids[i];
        proof {
            assert(ids@.take(i + 1).drop_last() =~= ids@.take(i as int));
            assert(ids@.take(i + 1).last() == id);
            assert(ids@.contains(id));
        }
        if let Some(projectile) = read_projectile(world, id) {
            let late: bool = match projectile.expiry {
                Some(end) => gs.frame_time > end,
                None => false,
            };
            if late {
                let ghost removed = to_remove@;
                let ghost blasts = gs.explosions@;
                remove_projectile(
                    cvars,
                    gs,
                    &mut to_remove,
                    id,
                    projectile.weapon,
                    projectile.pos,
                );
                proof {
                    assert(gs.explosions@ =~= old(gs).explosions@ + timeout_blasts(
                        *cvars,
                        ids@.take(i + 1),
                        shots,
                        now,
                    ));
                    lemma_missile_after_push(old(gs).guided_missile, removed, id);
                }
            }
        }
        i += 1;
    }
    proof {
        assert(ids@.take(ids.len() as int) =~= ids@);
        assert forall|e: legion::Entity| #[trigger]
            shots.remove_keys(to_remove@.to_set()).dom().contains(e) implies !expired(
            shots.remove_keys(to_remove@.to_set())[e],
            now,
        ) by {
            lemma_expired_ids(ids@, shots, now, e);
        }
    }
    remove_all(world, &to_remove);
}

/// Following the missile past one more removal is following it past the longer list.
pub proof fn lemma_missile_after_push(
    missile: Option<legion::Entity>,
    removed: Seq<legion::Entity>,
    e: legion::Entity,
)
    ensures
        missile_without(missile_after(missile, removed), e) == missile_after(
            missile,
            removed.push(e),
        ),
{
    let all = removed.push(e);
    assert(all[removed.len() as int] == e);
    match missile {
        Some(id) => {
            if removed.contains(id) {
                let k = choose|k: int| 0 <= k < removed.len() && removed[k] == id;
                assert(all[k] == id);
            }
            if all.contains(id) {
                let k = choose|k: int| 0 <= k < all.len() && all[k] == id;
                if k < removed.len() {
                    assert(removed[k] == id);
                }
            }
        },
        None => {},
    }
}

} // verus!
