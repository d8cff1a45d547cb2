//! How projectiles fly, and what they hit.
use vstd::prelude::*;
use crate::components::{Projectile, Vehicle, Weapon};
use crate::cvars::Cvars;
use crate::fixed::ONE;
use crate::game_state::{Explosion, GameState};
use crate::map::TileMap;
use crate::store::{
    lemma_update_ends, lemma_update_step, lists_keys, projectile_ids, projectile_order,
    projectiles_of, read_projectile, read_vehicle, remove_all, same_entity, updated_on, vehicle_ids,
    vehicle_order, vehicles_of, write_projectile, write_vehicle,
};
use crate::systems::removal::{blast, remove_projectile};
use crate::systems::timeout::{lemma_missile_after_push, missile_after};
use crate::vec2::{dist_sq, near, v_scaled, v_sum, Vec2};

verus! {

/// How close to a vehicle a projectile has to come to hit it.
pub const HIT_RADIUS: i64 = 24_000_000;

/// A vehicle that projectiles can hit: where it stood when the pass began.
#[derive(Clone, Copy, Debug, PartialEq, Eq)]
pub struct Target {
    pub id: legion::Entity,
    pub pos: Vec2,
}

/// The vehicles among `order` that are not destroyed, in that order.
pub open spec fn targets_of(order: Seq<legion::Entity>, fleet: Map<legion::Entity, Vehicle>) -> Seq<
    Target,
>
    decreases order.len(),
{
    if order.len() == 0 {
        seq![]
    } else {
        let rest = targets_of(order.drop_last(), fleet);
        if fleet.dom().contains(order.last()) && !fleet[order.last()].destroyed {
            rest.push(Target { id: order.last(), pos: fleet[order.last()].pos })
        } else {
            rest
        }
    }
}

/// The explosion of a vehicle that a projectile destroys.
pub open spec fn wreck(pos: Vec2, now: i64) -> Explosion {
    Explosion { pos, scale: ONE, start_time: now, bfg: false }
}

/// Whether a projectile at `at` sends a beam to a vehicle at `pos`: it is a
/// BFG's, the vehicle is in range, and nothing on the map stands between.
pub open spec fn beams_to(cvars: Cvars, map: TileMap, weapon: Weapon, at: Vec2, pos: Vec2) -> bool {
    &&& weapon == Weapon::Bfg
    &&& near(at, pos, cvars.g_bfg_beam_range as int)
    &&& map.hit(at, pos) is None
}

/// Whether a projectile of `owner` at `at` destroys the target by a beam: it
/// sends a beam to it, and the target is neither the vehicle that fired the
/// projectile nor within the hit radius, where a projectile hits directly
/// or not at all.
#[verifier::opaque]
pub open spec fn beamed(
    cvars: Cvars,
    map: TileMap,
    weapon: Weapon,
    owner: legion::Entity,
    at: Vec2,
    t: Target,
) -> bool {
    &&& t.id != owner
    &&& !near(at, t.pos, HIT_RADIUS as int)
    &&& beams_to(cvars, map, weapon, at, t.pos)
}

/// Whether a projectile at `at` can hit the target directly: the target is
/// not the vehicle that fired it and lies within the hit radius.
pub open spec fn in_reach(t: Target, owner: legion::Entity, at: Vec2) -> bool {
    t.id != owner && near(at, t.pos, HIT_RADIUS as int)
}

/// The place, among the first `n` targets, of the one that a projectile at
/// `at` hits directly: the nearest of those in reach, and of equally near
/// ones the first.
pub open spec fn nearest_upto(targets: Seq<Target>, n: int, owner: legion::Entity, at: Vec2) -> Option<
    int,
>
    decreases n,
{
    if n <= 0 {
        None
    } else {
        let prev = nearest_upto(targets, n - 1, owner, at);
        let t = targets[n - 1];
        if in_reach(t, owner, at) && (match prev {
            Some(i) => dist_sq(at, t.pos) < dist_sq(at, targets[i].pos),
            None => true,
        }) {
            Some(n - 1)
        } else {
            prev
        }
    }
}

/// What the beams of a projectile do.
pub struct Beams {
    /// The explosions of the vehicles they destroy.
    pub blasts: Seq<Explosion>,
    /// The beams, each from the projectile to a vehicle.
    pub beams: Seq<(Vec2, Vec2)>,
    /// The vehicles they destroy.
    pub kills: Seq<legion::Entity>,
}

/// What the beams of a projectile at `at` do to the first `n` of the
/// targets: every target beyond the hit radius, but the owner, that the
/// projectile sends a beam to is destroyed, whatever the projectile hits
/// directly.
pub open spec fn beamed_upto(
    cvars: Cvars,
    map: TileMap,
    targets: Seq<Target>,
    n: int,
    weapon: Weapon,
    owner: legion::Entity,
    at: Vec2,
    now: i64,
) -> Beams
    decreases n,
{
    if n <= 0 {
        Beams { blasts: seq![], beams: seq![], kills: seq![] }
    } else {
        let prev = beamed_upto(cvars, map, targets, n - 1, weapon, owner, at, now);
        let t = targets[n - 1];
        if beamed(cvars, map, weapon, owner, at, t) {
            Beams {
                blasts: prev.blasts.push(wreck(t.pos, now)),
                beams: prev.beams.push((at, t.pos)),
                kills: prev.kills.push(t.id),
            }
        } else {
            prev
        }
    }
}

/// The target that a projectile hits directly is in reach, and no target in
/// reach is nearer, nor is an earlier one as near; where it hits none, none
/// is in reach.
pub proof fn the_nearest_in_reach_is_hit(targets: Seq<Target>, n: int, owner: legion::Entity, at: Vec2)
    requires
        0 <= n <= targets.len(),
    ensures
        match nearest_upto(targets, n, owner, at) {
            Some(i) => {
                &&& 0 <= i < n
                &&& in_reach(targets[i], owner, at)
                &&& forall|j: int|
                    0 <= j < n && in_reach(#[trigger] targets[j], owner, at) ==> dist_sq(
                        at,
                        targets[i].pos,
                    ) <= dist_sq(at, targets[j].pos)
                &&& forall|j: int|
                    0 <= j < i && in_reach(#[trigger] targets[j], owner, at) ==> dist_sq(
                        at,
                        targets[i].pos,
                    ) < dist_sq(at, targets[j].pos)
            },
            None => forall|j: int| 0 <= j < n ==> !in_reach(#[trigger] targets[j], owner, at),
        },
    decreases n,
{
    if n > 0 {
        the_nearest_in_reach_is_hit(targets, n - 1, owner, at);
    }
}

/// A projectile's beams destroy every target that it beams at, and record
/// the beam; they destroy no other vehicle, and so none within the hit
/// radius.
pub proof fn every_vehicle_in_sight_is_beamed(
    cvars: Cvars,
    map: TileMap,
    targets: Seq<Target>,
    n: int,
    weapon: Weapon,
    owner: legion::Entity,
    at: Vec2,
    now: i64,
)
    requires
        0 <= n <= targets.len(),
    ensures
        forall|j: int|
            0 <= j < n && beamed(cvars, map, weapon, owner, at, #[trigger] targets[j])
                ==> beamed_upto(cvars, map, targets, n, weapon, owner, at, now).kills.contains(
                targets[j].id,
            ) && beamed_upto(cvars, map, targets, n, weapon, owner, at, now).beams.contains(
                (at, targets[j].pos),
            ) && beamed_upto(cvars, map, targets, n, weapon, owner, at, now).blasts.contains(
                wreck(targets[j].pos, now),
            ),
        forall|e: legion::Entity|
            beamed_upto(cvars, map, targets, n, weapon, owner, at, now).kills.contains(e)
                ==> e != owner && exists|k: int|
                0 <= k < n && (#[trigger] targets[k]).id == e && beamed(
                    cvars,
                    map,
                    weapon,
                    owner,
                    at,
                    targets[k],
                ),
        weapon != Weapon::Bfg ==> beamed_upto(cvars, map, targets, n, weapon, owner, at, now) == (
        Beams { blasts: seq![], beams: seq![], kills: seq![] }),
    decreases n,
{
    if n > 0 {
        every_vehicle_in_sight_is_beamed(cvars, map, targets, n - 1, weapon, owner, at, now);
        let prev = beamed_upto(cvars, map, targets, n - 1, weapon, owner, at, now);
        let cur = beamed_upto(cvars, map, targets, n, weapon, owner, at, now);
        let t = targets[n - 1];
        let hit = beamed(cvars, map, weapon, owner, at, t);
        assert(hit ==> t.id != owner && weapon == Weapon::Bfg) by {
            reveal(beamed);
        }
        assert forall|j: int|
            0 <= j < n && beamed(cvars, map, weapon, owner, at, #[trigger] targets[j]) implies cur.kills.contains(
            targets[j].id,
        ) && cur.beams.contains((at, targets[j].pos)) && cur.blasts.contains(
            wreck(targets[j].pos, now),
        ) by {
            if j < n - 1 {
                let a = choose|a: int| 0 <= a < prev.kills.len() && prev.kills[a] == targets[j].id;
                let b = choose|b: int|
                    0 <= b < prev.beams.len() && prev.beams[b] == (at, targets[j].pos);
                let c = choose|c: int|
                    0 <= c < prev.blasts.len() && prev.blasts[c] == wreck(targets[j].pos, now);
                if hit {
                    assert(cur.kills[a] == targets[j].id);
                    assert(cur.beams[b] == (at, targets[j].pos));
                    assert(cur.blasts[c] == wreck(targets[j].pos, now));
                }
            } else {
                assert(cur.kills[prev.kills.len() as int] == t.id);
                assert(cur.beams[prev.beams.len() as int] == (at, t.pos));
                assert(cur.blasts[prev.blasts.len() as int] == wreck(t.pos, now));
            }
        }
        assert forall|e: legion::Entity| cur.kills.contains(e) implies e != owner && exists|k: int|
            0 <= k < n && (#[trigger] targets[k]).id == e && beamed(
                cvars,
                map,
                weapon,
                owner,
                at,
                targets[k],
            ) by {
            let a = choose|a: int| 0 <= a < cur.kills.len() && cur.kills[a] == e;
            if a < prev.kills.len() {
                assert(prev.kills[a] == e);
                assert(prev.kills.contains(e));
                let k = choose|k: int|
                    0 <= k < n - 1 && (#[trigger] targets[k]).id == e && beamed(
                        cvars,
                        map,
                        weapon,
                        owner,
                        at,
                        targets[k],
                    );
                assert(0 <= k < n && targets[k].id == e);
            } else {
                assert(e == t.id);
                assert(0 <= n - 1 < n && targets[n - 1].id == e);
            }
        }
    }
}

/// Every beam of a projectile goes from the projectile to a target that it
/// beams at.
pub proof fn every_beam_has_its_target(
    cvars: Cvars,
    map: TileMap,
    targets: Seq<Target>,
    n: int,
    weapon: Weapon,
    owner: legion::Entity,
    at: Vec2,
    now: i64,
    b: (Vec2, Vec2),
)
    requires
        0 <= n <= targets.len(),
        beamed_upto(cvars, map, targets, n, weapon, owner, at, now).beams.contains(b),
    ensures
        exists|k: int|
            0 <= k < n && b == (at, (#[trigger] targets[k]).pos) && beamed(
                cvars,
                map,
                weapon,
                owner,
                at,
                targets[k],
            ),
    decreases n,
{
    if n > 0 {
        let prev = beamed_upto(cvars, map, targets, n - 1, weapon, owner, at, now);
        let cur = beamed_upto(cvars, map, targets, n, weapon, owner, at, now);
        let t = targets[n - 1];
        let a = choose|a: int| 0 <= a < cur.beams.len() && cur.beams[a] == b;
        if a < prev.beams.len() {
            assert(prev.beams[a] == b);
            assert(prev.beams.contains(b));
            every_beam_has_its_target(cvars, map, targets, n - 1, weapon, owner, at, now, b);
            let k = choose|k: int|
                0 <= k < n - 1 && b == (at, (#[trigger] targets[k]).pos) && beamed(
                    cvars,
                    map,
                    weapon,
                    owner,
                    at,
                    targets[k],
                );
            assert(0 <= k < n && b == (at, targets[k].pos));
        } else {
            assert(b == (at, t.pos));
            assert(0 <= n - 1 < n && b == (at, targets[n - 1].pos));
        }
    }
}

/// One tick of a projectile's flight.
pub struct Flight {
    /// Where the projectile is after the tick.
    pub pos: Vec2,
    /// The explosion of the vehicle that it hits directly, if it hits one.
    pub blasts: Seq<Explosion>,
    /// The beams it sends out.
    pub beams: Seq<(Vec2, Vec2)>,
    /// The explosions of the vehicles that its beams destroy.
    pub beam_blasts: Seq<Explosion>,
    /// The vehicles it destroys: the one it hits directly first.
    pub kills: Seq<legion::Entity>,
    /// Where the projectile leaves the game, if it does.
    pub removed_at: Option<Vec2>,
}

/// Where a projectile would be after the tick if nothing stood in its way.
pub open spec fn destination(p: Projectile, dt: i64) -> Vec2 {
    v_sum(p.pos, v_scaled(p.vel, dt as int))
}

/// One tick of a projectile's flight. A cluster bomblet flies on whatever
/// lies ahead. Any other projectile stops where the map blocks its way, and
/// leaves the game there without having moved; else it moves on. Where it
/// has moved to, it destroys the nearest vehicle in reach, if there is one,
/// and leaves the game there; and if it is a BFG's, it destroys every
/// vehicle beyond the hit radius that it sends a beam to, whether it has
/// hit a vehicle or not.
pub open spec fn flight(
    cvars: Cvars,
    map: TileMap,
    targets: Seq<Target>,
    p: Projectile,
    dt: i64,
    now: i64,
) -> Flight {
    let dest = destination(p, dt);
    if p.weapon == Weapon::Cb {
        Flight {
            pos: dest,
            blasts: seq![],
            beams: seq![],
            beam_blasts: seq![],
            kills: seq![],
            removed_at: None,
        }
    } else {
        match map.hit(p.pos, dest) {
            Some(wall) => Flight {
                pos: p.pos,
                blasts: seq![],
                beams: seq![],
                beam_blasts: seq![],
                kills: seq![],
                removed_at: Some(wall),
            },
            None => {
                let beamed = beamed_upto(
                    cvars,
                    map,
                    targets,
                    targets.len() as int,
                    p.weapon,
                    p.owner,
                    dest,
                    now,
                );
                match nearest_upto(targets, targets.len() as int, p.owner, dest) {
                    Some(i) => Flight {
                        pos: dest,
                        blasts: seq![wreck(targets[i].pos, now)],
                        beams: beamed.beams,
                        beam_blasts: beamed.blasts,
                        kills: seq![targets[i].id] + beamed.kills,
                        removed_at: Some(dest),
                    },
                    None => Flight {
                        pos: dest,
                        blasts: seq![],
                        beams: beamed.beams,
                        beam_blasts: beamed.blasts,
                        kills: beamed.kills,
                        removed_at: None,
                    },
                }
            },
        }
    }
}

/// A projectile never destroys the vehicle that fired it, neither by a
/// direct hit nor by a beam.
pub proof fn owner_is_spared(
    cvars: Cvars,
    map: TileMap,
    targets: Seq<Target>,
    p: Projectile,
    dt: i64,
    now: i64,
)
    ensures
        !flight(cvars, map, targets, p, dt, now).kills.contains(p.owner),
{
    let f = flight(cvars, map, targets, p, dt, now);
    let dest = destination(p, dt);
    if f.kills.contains(p.owner) {
        let n = targets.len() as int;
        let beamed = beamed_upto(cvars, map, targets, n, p.weapon, p.owner, dest, now);
        every_vehicle_in_sight_is_beamed(cvars, map, targets, n, p.weapon, p.owner, dest, now);
        the_nearest_in_reach_is_hit(targets, n, p.owner, dest);
        let a = choose|a: int| 0 <= a < f.kills.len() && f.kills[a] == p.owner;
        match nearest_upto(targets, n, p.owner, dest) {
            Some(i) => {
                if a > 0 {
                    assert(beamed.kills[a - 1] == p.owner);
                    assert(beamed.kills.contains(p.owner));
                }
            },
            None => {
                assert(beamed.kills[a] == p.owner);
                assert(beamed.kills.contains(p.owner));
            },
        }
    }
}

/// Whether the target at place `i` is the one that a projectile at `at`
/// hits directly: it is in reach, no target in reach is nearer, and none
/// before it is as near.
pub open spec fn is_victim(targets: Seq<Target>, owner: legion::Entity, at: Vec2, i: int) -> bool {
    &&& 0 <= i < targets.len()
    &&& in_reach(targets[i], owner, at)
    &&& forall|j: int|
        0 <= j < targets.len() && in_reach(#[trigger] targets[j], owner, at) ==> dist_sq(
            at,
            targets[i].pos,
        ) <= dist_sq(at, targets[j].pos)
    &&& forall|j: int|
        0 <= j < i && in_reach(#[trigger] targets[j], owner, at) ==> dist_sq(at, targets[i].pos)
            < dist_sq(at, targets[j].pos)
}

/// Whether a flight ends as a direct hit asks: the projectile leaves the
/// game exactly if some target is in reach, and then it destroys, first of
/// all and with one explosion, the nearest target in reach; where none is
/// in reach, none explodes from a hit.
pub open spec fn hits_the_nearest(
    targets: Seq<Target>,
    owner: legion::Entity,
    at: Vec2,
    now: i64,
    f: Flight,
) -> bool {
    &&& f.removed_at is Some <==> exists|j: int|
        0 <= j < targets.len() && in_reach(#[trigger] targets[j], owner, at)
    &&& f.removed_at is Some ==> f.removed_at == Some(at) && f.kills.len() > 0 && exists|i: int|
         #[trigger] is_victim(targets, owner, at, i) && f.kills[0] == targets[i].id && f.blasts
            == seq![wreck(targets[i].pos, now)]
    &&& f.removed_at is None ==> f.blasts.len() == 0
}

/// Whether a flight beams as the beam check asks. Every target that the
/// projectile beams at is destroyed and has its beam and its explosion,
/// whether or not the projectile hits a vehicle directly. Every beam goes
/// to such a target, so none to a vehicle within the hit radius. A
/// projectile that is not a BFG's sends no beam and destroys no vehicle but
/// the one it hits.
pub open spec fn beams_all_in_sight(
    cvars: Cvars,
    map: TileMap,
    targets: Seq<Target>,
    weapon: Weapon,
    owner: legion::Entity,
    at: Vec2,
    now: i64,
    f: Flight,
) -> bool {
    &&& forall|j: int|
        0 <= j < targets.len() && (#[trigger] targets[j]).id != owner && !near(
            at,
            targets[j].pos,
            HIT_RADIUS as int,
        ) && beams_to(cvars, map, weapon, at, targets[j].pos) ==> f.kills.contains(targets[j].id)
            && f.beams.contains((at, targets[j].pos)) && f.beam_blasts.contains(
            wreck(targets[j].pos, now),
        )
    &&& forall|b: (Vec2, Vec2)| #[trigger]
        f.beams.contains(b) ==> exists|k: int|
            0 <= k < targets.len() && b == (at, (#[trigger] targets[k]).pos) && targets[k].id
                != owner && !near(at, targets[k].pos, HIT_RADIUS as int) && beams_to(
                cvars,
                map,
                weapon,
                at,
                targets[k].pos,
            )
    &&& f.beam_blasts.len() == f.beams.len()
    &&& f.kills.len() == f.beams.len() + (if f.removed_at is Some {
        1nat
    } else {
        0nat
    })
    &&& weapon != Weapon::Bfg ==> f.beams.len() == 0
}

/// The beams of a projectile destroy as many vehicles as they are, each
/// with one explosion.
pub proof fn lemma_beams_count(
    cvars: Cvars,
    map: TileMap,
    targets: Seq<Target>,
    n: int,
    weapon: Weapon,
    owner: legion::Entity,
    at: Vec2,
    now: i64,
)
    ensures
        beamed_upto(cvars, map, targets, n, weapon, owner, at, now).kills.len() == beamed_upto(
            cvars,
            map,
            targets,
            n,
            weapon,
            owner,
            at,
            now,
        ).beams.len(),
        beamed_upto(cvars, map, targets, n, weapon, owner, at, now).blasts.len() == beamed_upto(
            cvars,
            map,
            targets,
            n,
            weapon,
            owner,
            at,
            now,
        ).beams.len(),
    decreases n,
{
    if n > 0 {
        lemma_beams_count(cvars, map, targets, n - 1, weapon, owner, at, now);
    }
}

/// A projectile that meets no wall destroys, where it has moved to, the
/// nearest vehicle in reach and, if it is a BFG's, every vehicle beyond the
/// hit radius that it sends a beam to, the one independently of the other.
pub proof fn a_free_flight_hits_the_nearest_and_beams_all_in_sight(
    cvars: Cvars,
    map: TileMap,
    targets: Seq<Target>,
    p: Projectile,
    dt: i64,
    now: i64,
)
    requires
        p.weapon != Weapon::Cb,
        map.hit(p.pos, destination(p, dt)) is None,
    ensures
        hits_the_nearest(
            targets,
            p.owner,
            destination(p, dt),
            now,
            flight(cvars, map, targets, p, dt, now),
        ),
        beams_all_in_sight(
            cvars,
            map,
            targets,
            p.weapon,
            p.owner,
            destination(p, dt),
            now,
            flight(cvars, map, targets, p, dt, now),
        ),
{
    let at = destination(p, dt);
    let n = targets.len() as int;
    let f = flight(cvars, map, targets, p, dt, now);
    let rays = beamed_upto(cvars, map, targets, n, p.weapon, p.owner, at, now);
    the_nearest_in_reach_is_hit(targets, n, p.owner, at);
    every_vehicle_in_sight_is_beamed(cvars, map, targets, n, p.weapon, p.owner, at, now);
    lemma_beams_count(cvars, map, targets, n, p.weapon, p.owner, at, now);
    match nearest_upto(targets, n, p.owner, at) {
        Some(i) => {
            assert(is_victim(targets, p.owner, at, i));
            assert(f.kills[0] == targets[i].id);
        },
        None => {},
    }
    assert forall|b: (Vec2, Vec2)| #[trigger] f.beams.contains(b) implies exists|k: int|
        0 <= k < targets.len() && b == (at, (#[trigger] targets[k]).pos) && targets[k].id
            != p.owner && !near(at, targets[k].pos, HIT_RADIUS as int) && beams_to(
            cvars,
            map,
            p.weapon,
            at,
            targets[k].pos,
        ) by {
        every_beam_has_its_target(cvars, map, targets, n, p.weapon, p.owner, at, now, b);
        let k = choose|k: int|
            0 <= k < n && b == (at, (#[trigger] targets[k]).pos) && beamed(
                cvars,
                map,
                p.weapon,
                p.owner,
                at,
                targets[k],
            );
        lemma_beamed(cvars, map, p.weapon, p.owner, at, targets[k]);
    }
    assert forall|j: int|
        0 <= j < targets.len() && (#[trigger] targets[j]).id != p.owner && !near(
            at,
            targets[j].pos,
            HIT_RADIUS as int,
        ) && beams_to(cvars, map, p.weapon, at, targets[j].pos) implies f.kills.contains(
        targets[j].id,
    ) && f.beams.contains((at, targets[j].pos)) && f.beam_blasts.contains(
        wreck(targets[j].pos, now),
    ) by {
        lemma_beamed(cvars, map, p.weapon, p.owner, at, targets[j]);
        let a = choose|a: int| 0 <= a < rays.kills.len() && rays.kills[a] == targets[j].id;
        if f.removed_at is Some {
            assert(f.kills[a + 1] == targets[j].id);
        } else {
            assert(f.kills[a] == targets[j].id);
        }
    }
}

/// What it is to be beamed at, spelled out.
pub proof fn lemma_beamed(
    cvars: Cvars,
    map: TileMap,
    weapon: Weapon,
    owner: legion::Entity,
    at: Vec2,
    t: Target,
)
    ensures
        beamed(cvars, map, weapon, owner, at, t) <==> (t.id != owner && !near(
            at,
            t.pos,
            HIT_RADIUS as int,
        ) && beams_to(cvars, map, weapon, at, t.pos)),
{
    reveal(beamed);
}

/// One tick of a projectile's flight, as computed.
pub struct Impact {
    pub pos: Vec2,
    pub blasts: Vec<Explosion>,
    pub beams: Vec<(Vec2, Vec2)>,
    pub beam_blasts: Vec<Explosion>,
    pub kills: Vec<legion::Entity>,
    pub removed_at: Option<Vec2>,
}

impl View for Impact {
    type V = Flight;

    open spec fn view(&self) -> Flight {
        Flight {
            pos: self.pos,
            blasts: self.blasts@,
            beams: self.beams@,
            beam_blasts: self.beam_blasts@,
            kills: self.kills@,
            removed_at: self.removed_at,
        }
    }
}

/// Flies one projectile for one tick against the map and the targets.
pub fn fly(
    cvars: &Cvars,
    map: &TileMap,
    targets: &Vec<Target>,
    p: &Projectile,
    dt: i64,
    now: i64,
) -> (impact: Impact)
    ensures
        impact@ == flight(*cvars, *map, targets@, *p, dt, now),
        !impact@.kills.contains(p.owner),
        p.weapon != Weapon::Cb && map.hit(p.pos, destination(*p, dt)) is None ==> hits_the_nearest(
            targets@,
            p.owner,
            destination(*p, dt),
            now,
            impact@,
        ) && beams_all_in_sight(
            *cvars,
            *map,
            targets@,
            p.weapon,
            p.owner,
            destination(*p, dt),
            now,
            impact@,
        ),
{
    proof {
        owner_is_spared(*cvars, *map, targets@, *p, dt, now);
        if p.weapon != Weapon::Cb && map.hit(p.pos, destination(*p, dt)) is None {
            a_free_flight_hits_the_nearest_and_beams_all_in_sight(
                *cvars,
                *map,
                targets@,
                *p,
                dt,
                now,
            );
        }
    }
    let new_pos: Vec2 = p.pos.plus(p.vel.scaled(dt));
    let mut impact = Impact {
        pos: new_pos,
        blasts: Vec::new(),
        beams: Vec::new(),
        beam_blasts: Vec::new(),
        kills: Vec::new(),
        removed_at: None,
    };
    if matches!(p.weapon, Weapon::Cb) {
        return impact;
    }
    if let Some(col_pos) = map.collision_between(p.pos, new_pos) {
        impact.pos = p.pos;
        impact.removed_at = Some(col_pos);
        return impact;
    }
    let bfg: bool = matches!(p.weapon, Weapon::Bfg);
    let mut nearest: Option<usize> = None;
    let mut nearest_sq: u128 = 0;
    let mut beam_kills: Vec<legion::Entity> = Vec::new();
    let mut k: usize = 0;
    while k < targets.len()
        invariant
            0 <= k <= targets.len(),
            bfg == (p.weapon == Weapon::Bfg),
            new_pos == destination(*p, dt),
            impact.pos == new_pos,
            impact.removed_at is None,
            impact.blasts@.len() == 0,
            impact.kills@.len() == 0,
            match nearest {
                Some(i) => i < k && nearest_upto(targets@, k as int, p.owner, new_pos) == Some(
                    i as int,
                ) && nearest_sq == dist_sq(new_pos, targets@[i as int].pos),
                None => nearest_upto(targets@, k as int, p.owner, new_pos) is None,
            },
            impact.beam_blasts@ == beamed_upto(
                *cvars,
                *map,
                targets@,
                k as int,
                p.weapon,
                p.owner,
                new_pos,
                now,
            ).blasts,
            impact.beams@ == beamed_upto(
                *cvars,
                *map,
                targets@,
                k as int,
                p.weapon,
                p.owner,
                new_pos,
                now,
            ).beams,
            beam_kills@ == beamed_upto(
                *cvars,
                *map,
                targets@,
                k as int,
                p.weapon,
                p.owner,
                new_pos,
                now,
            ).kills,
        decreases targets.len() - k,
    {
        let target: Target = targets[k];
        proof {
            reveal(beamed);
        }
        if !same_entity(target.id, p.owner) {
            if let Some(sq) = new_pos.reach(target.pos, HIT_RADIUS) {
                let nearer: bool = match nearest {
                    Some(_) => sq < nearest_sq,
                    None => true,
                };
                if nearer {
                    nearest = Some(k);
                    nearest_sq = sq;
                }
            } else if bfg && new_pos.is_near(target.pos, cvars.g_bfg_beam_range)
                && map.collision_between(new_pos, target.pos).is_none() {
                impact.beam_blasts.push(Explosion::new(target.pos, ONE, now, false));
                beam_kills.push(target.id);
                impact.beams.push((new_pos, target.pos));
            }
        }
        k += 1;
    }
    if let Some(i) = nearest {
        // Vehicle explosion first so it's below projectile explosion because it looks better.
        let victim: Target = targets[i];
        impact.blasts.push(Explosion::new(victim.pos, ONE, now, false));
        impact.kills.push(victim.id);
        impact.removed_at = Some(new_pos);
    }
    impact.kills.append(&mut beam_kills);
    proof {
        assert(impact@.blasts =~= flight(*cvars, *map, targets@, *p, dt, now).blasts);
        assert(impact@.kills =~= flight(*cvars, *map, targets@, *p, dt, now).kills);
    }
    impact
}

/// A projectile moved to where its flight leaves it.
pub open spec fn flown(
    cvars: Cvars,
    map: TileMap,
    targets: Seq<Target>,
    p: Projectile,
    dt: i64,
    now: i64,
) -> Projectile {
    Projectile { pos: flight(cvars, map, targets, p, dt, now).pos, ..p }
}

/// What one pass over the projectiles leaves behind.
pub struct Toll {
    /// The explosions, in the order in which they are queued: of each
    /// projectile first that of the vehicle it hits, then its own, then
    /// those of the vehicles that its beams destroy.
    pub blasts: Seq<Explosion>,
    pub beams: Seq<(Vec2, Vec2)>,
    /// The vehicles to destroy, as often as they were hit.
    pub kills: Seq<legion::Entity>,
    /// The projectiles to take out of the store.
    pub removed: Seq<legion::Entity>,
}

/// What the flights of the projectiles among `order` leave behind, in that order.
pub open spec fn toll(
    cvars: Cvars,
    map: TileMap,
    targets: Seq<Target>,
    order: Seq<legion::Entity>,
    shots: Map<legion::Entity, Projectile>,
    dt: i64,
    now: i64,
) -> Toll
    decreases order.len(),
{
    if order.len() == 0 {
        Toll { blasts: seq![], beams: seq![], kills: seq![], removed: seq![] }
    } else {
        let rest = toll(cvars, map, targets, order.drop_last(), shots, dt, now);
        let p = shots[order.last()];
        let f = flight(cvars, map, targets, p, dt, now);
        if !shots.dom().contains(order.last()) {
            rest
        } else {
            match f.removed_at {
                Some(at) => Toll {
                    blasts: rest.blasts + f.blasts + blast(cvars, p.weapon, at, now) + f.beam_blasts,
                    beams: rest.beams + f.beams,
                    kills: rest.kills + f.kills,
                    removed: rest.removed.push(order.last()),
                },
                None => Toll {
                    blasts: rest.blasts + f.blasts + f.beam_blasts,
                    beams: rest.beams + f.beams,
                    kills: rest.kills + f.kills,
                    removed: rest.removed,
                },
            }
        }
    }
}

/// The vehicle that a projectile hits explodes once, and right before the
/// projectile does, so that its explosion is drawn below the projectile's
/// own: in what a pass leaves behind, the explosion of the vehicle stands
/// where the explosions of the projectiles before end, and the projectile's
/// own follows it.
pub proof fn a_hit_vehicle_explodes_under_the_projectile(
    cvars: Cvars,
    map: TileMap,
    targets: Seq<Target>,
    order: Seq<legion::Entity>,
    shots: Map<legion::Entity, Projectile>,
    dt: i64,
    now: i64,
    scale: i64,
)
    requires
        order.len() > 0,
        shots.dom().contains(order.last()),
        shots[order.last()].weapon != Weapon::Cb,
        map.hit(shots[order.last()].pos, destination(shots[order.last()], dt)) is None,
        exists|j: int|
            0 <= j < targets.len() && in_reach(
                #[trigger] targets[j],
                shots[order.last()].owner,
                destination(shots[order.last()], dt),
            ),
        cvars.explosion_scale(shots[order.last()].weapon) == Some(scale),
    ensures
        ({
            let p = shots[order.last()];
            let at = destination(p, dt);
            let n = toll(cvars, map, targets, order.drop_last(), shots, dt, now).blasts.len() as int;
            let all = toll(cvars, map, targets, order, shots, dt, now).blasts;
            &&& n + 1 < all.len()
            &&& exists|i: int| #[trigger]
                is_victim(targets, p.owner, at, i) && all[n] == wreck(targets[i].pos, now)
            &&& all[n + 1] == (Explosion { pos: at, scale, start_time: now, bfg: p.weapon == Weapon::Bfg })
        }),
{
    let p = shots[order.last()];
    let at = destination(p, dt);
    let f = flight(cvars, map, targets, p, dt, now);
    let rest = toll(cvars, map, targets, order.drop_last(), shots, dt, now);
    let all = toll(cvars, map, targets, order, shots, dt, now).blasts;
    let n = rest.blasts.len() as int;
    a_free_flight_hits_the_nearest_and_beams_all_in_sight(cvars, map, targets, p, dt, now);
    assert(f.removed_at == Some(at));
    let i = choose|i: int| #[trigger]
        is_victim(targets, p.owner, at, i) && f.kills[0] == targets[i].id && f.blasts
            == seq![wreck(targets[i].pos, now)];
    assert(all == rest.blasts + f.blasts + blast(cvars, p.weapon, at, now) + f.beam_blasts);
    assert(f.blasts[0] == wreck(targets[i].pos, now));
    assert(blast(cvars, p.weapon, at, now)[0] == (Explosion {
        pos: at,
        scale,
        start_time: now,
        bfg: p.weapon == Weapon::Bfg,
    }));
    assert(all[n] == f.blasts[0]);
    assert(all[n + 1] == blast(cvars, p.weapon, at, now)[0]);
    assert(is_victim(targets, p.owner, at, i) && all[n] == wreck(targets[i].pos, now));
}

/// Every vehicle that a pass destroys has been hit by a projectile that
/// another vehicle fired: no vehicle falls to its own projectiles alone.
pub proof fn kills_come_from_others(
    cvars: Cvars,
    map: TileMap,
    targets: Seq<Target>,
    order: Seq<legion::Entity>,
    shots: Map<legion::Entity, Projectile>,
    dt: i64,
    now: i64,
    victim: legion::Entity,
)
    requires
        toll(cvars, map, targets, order, shots, dt, now).kills.contains(victim),
    ensures
        exists|k: int|
            0 <= k < order.len() && shots.dom().contains(#[trigger] order[k]) && shots[order[k]].owner
                != victim && flight(cvars, map, targets, shots[order[k]], dt, now).kills.contains(
                victim,
            ),
    decreases order.len(),
{
    let all = toll(cvars, map, targets, order, shots, dt, now);
    if order.len() > 0 {
        let head = order.drop_last();
        let rest = toll(cvars, map, targets, head, shots, dt, now);
        let p = shots[order.last()];
        let f = flight(cvars, map, targets, p, dt, now);
        let i = choose|i: int| 0 <= i < all.kills.len() && all.kills[i] == victim;
        if shots.dom().contains(order.last()) && i >= rest.kills.len() {
            assert(all.kills == rest.kills + f.kills);
            assert(f.kills[i - rest.kills.len()] == victim);
            assert(f.kills.contains(victim));
            owner_is_spared(cvars, map, targets, p, dt, now);
            let k = order.len() - 1;
            assert(order[k] == order.last());
        } else {
            if shots.dom().contains(order.last()) {
                assert(all.kills == rest.kills + f.kills);
                assert(rest.kills[i] == victim);
            }
            assert(rest.kills.contains(victim));
            kills_come_from_others(cvars, map, targets, head, shots, dt, now, victim);
            let k = choose|k: int|
                0 <= k < head.len() && shots.dom().contains(#[trigger] head[k]) && shots[head[k]].owner
                    != victim && flight(cvars, map, targets, shots[head[k]], dt, now).kills.contains(
                    victim,
                );
            assert(order[k] == head[k]);
        }
    }
}

/// A vehicle that has been destroyed.
pub open spec fn destroyed(v: Vehicle) -> Vehicle {
    Vehicle { destroyed: true, ..v }
}

/// Takes the vehicles that are not destroyed, in the order of the store.
fn snapshot(world: &legion::World) -> (targets: Vec<Target>)
    ensures
        targets@ == targets_of(vehicle_order(*world), vehicles_of(*world)),
        lists_keys(vehicle_order(*world), vehicles_of(*world)),
{
    let ids = vehicle_ids(world);
    let mut targets: Vec<Target> = Vec::new();
    let mut i: usize = 0;
    while i < ids.len()
        invariant
            0 <= i <= ids.len(),
            ids@ == vehicle_order(*world),
            targets@ == targets_of(ids@.take(i as int), vehicles_of(*world)),
        decreases ids.len() - i,
    {
        let id = ids[i];
        proof {
            assert(ids@.take(i + 1).drop_last() =~= ids@.take(i as int));
            assert(ids@.take(i + 1).last() == id);
        }
        if let Some(vehicle) = read_vehicle(world, id) {
            if !vehicle.destroyed {
                targets.push(Target { id, pos: vehicle.pos });
            }
        }
        i += 1;
    }
    proof {
        assert(ids@.take(ids.len() as int) =~= ids@);
    }
    targets
}

/// Marks every vehicle on the list as destroyed; an entity that is no
/// vehicle any more is passed over.
fn destroy_all(world: &mut legion::World, to_kill: &Vec<legion::Entity>)
    ensures
        projectiles_of(*final(world)) == projectiles_of(*old(world)),
        vehicles_of(*final(world)).dom() == vehicles_of(*old(world)).dom(),
        forall|e: legion::Entity| #[trigger]
            vehicles_of(*old(world)).dom().contains(e) ==> vehicles_of(*final(world))[e] == (
            if to_kill@.contains(e) {
                destroyed(vehicles_of(*old(world))[e])
            } else {
                vehicles_of(*old(world))[e]
            }),
{
    let ghost fleet = vehicles_of(*world);
    let mut j: usize = 0;
    while j < to_kill.len()
        invariant
            0 <= j <= to_kill.len(),
            fleet == vehicles_of(*old(world)),
            projectiles_of(*world) == projectiles_of(*old(world)),
            vehicles_of(*world).dom() == fleet.dom(),
            forall|e: legion::Entity| #[trigger]
                fleet.dom().contains(e) ==> vehicles_of(*world)[e] == (if to_kill@.take(
                    j as int,
                ).contains(e) {
                    destroyed(fleet[e])
                } else {
                    fleet[e]
                }),
        decreases to_kill.len() - j,
    {
        let veh_id = to_kill[j];
        let ghost cur = vehicles_of(*world);
        if let Some(mut vehicle) = read_vehicle(world, veh_id) {
            vehicle.destroyed = true;
            write_vehicle(world, veh_id, vehicle);
            assert(vehicles_of(*world).dom() =~= fleet.dom());
        }
        proof {
            let head = to_kill@.take(j as int);
            let more = to_kill@.take(j + 1);
            assert(more[j as int] == veh_id);
            assert forall|e: legion::Entity| #[trigger] fleet.dom().contains(e) implies vehicles_of(
                *world,
            )[e] == (if more.contains(e) {
                destroyed(fleet[e])
            } else {
                fleet[e]
            }) by {
                if head.contains(e) {
                    let k = choose|k: int| 0 <= k < head.len() && head[k] == e;
                    assert(more[k] == e);
                }
                if more.contains(e) && e != veh_id {
                    let k = choose|k: int| 0 <= k < more.len() && more[k] == e;
                    assert(head[k] == e);
                }
            }
        }
        j += 1;
    }
    proof {
        assert(to_kill@.take(to_kill.len() as int) =~= to_kill@);
    }
}

/// Flies every projectile for one tick. The vehicles that can be hit are
/// those that were not destroyed when the pass began. Projectiles leave the
/// store, and vehicles are marked as destroyed, only after all projectiles
/// have flown.
pub fn projectiles(cvars: &Cvars, world: &mut legion::World, gs: &mut GameState, map: &TileMap)
    ensures
        lists_keys(vehicle_order(*old(world)), vehicles_of(*old(world))),
        lists_keys(projectile_order(*old(world)), projectiles_of(*old(world))),
        ({
            let targets = targets_of(vehicle_order(*old(world)), vehicles_of(*old(world)));
            let shots = projectiles_of(*old(world));
            let fleet = vehicles_of(*old(world));
            let t = toll(
                *cvars,
                *map,
                targets,
                projectile_order(*old(world)),
                shots,
                old(gs).dt,
                old(gs).frame_time,
            );
            &&& final(gs).explosions@ == old(gs).explosions@ + t.blasts
            &&& final(gs).bfg_beams@ == old(gs).bfg_beams@ + t.beams
            &&& final(gs).guided_missile == missile_after(old(gs).guided_missile, t.removed)
            &&& forall|e: legion::Entity|
                projectiles_of(*final(world)).dom().contains(e) <==> (shots.dom().contains(e)
                    && !t.removed.contains(e))
            &&& forall|e: legion::Entity| #[trigger]
                projectiles_of(*final(world)).dom().contains(e) ==> projectiles_of(*final(world))[e]
                    == flown(*cvars, *map, targets, shots[e], old(gs).dt, old(gs).frame_time)
            &&& forall|e: legion::Entity|
                vehicles_of(*final(world)).dom().contains(e) <==> (fleet.dom().contains(e)
                    && !t.removed.contains(e))
            &&& forall|e: legion::Entity| #[trigger]
                vehicles_of(*final(world)).dom().contains(e) ==> vehicles_of(*final(world))[e] == (
                if t.kills.contains(e) {
                    destroyed(fleet[e])
                } else {
                    fleet[e]
                })
        }),
        final(gs).frame_time == old(gs).frame_time,
        final(gs).dt == old(gs).dt,
        final(gs).input == old(gs).input,
        final(gs).rng == old(gs).rng,
        final(gs).normals == old(gs).normals,
        final(gs).railguns == old(gs).railguns,
        final(gs).player_entity == old(gs).player_entity,
{
    let targets = snapshot(world);

    let mut to_remove: Vec<legion::Entity> = Vec::new();
    let mut to_kill: Vec<legion::Entity> = Vec::new();

    let ids = projectile_ids(world);
    let ghost shots = projectiles_of(*world);
    let ghost fleet = vehicles_of(*world);
    let ghost dt = gs.dt;
    let ghost now = gs.frame_time;
    let ghost f = |e: legion::Entity, p: Projectile| flown(*cvars, *map, targets@, p, dt, now);
    proof {
        lemma_update_ends(shots, shots, ids@, f);
        assert(gs.explosions@ =~= old(gs).explosions@ + toll(
            *cvars,
            *map,
            targets@,
            ids@.take(0),
            shots,
            dt,
            now,
        ).blasts);
        assert(gs.bfg_beams@ =~= old(gs).bfg_beams@ + toll(
            *cvars,
            *map,
            targets@,
            ids@.take(0),
            shots,
            dt,
            now,
        ).beams);
    }
    let mut i: usize = 0;
    while i < ids.len()
        invariant
            0 <= i <= ids.len(),
            lists_keys(ids@, shots),
            ids@ == projectile_order(*old(world)),
            shots == projectiles_of(*old(world)),
            fleet == vehicles_of(*old(world)),
            targets@ == targets_of(vehicle_order(*old(world)), fleet),
            dt == old(gs).dt,
            now == old(gs).frame_time,
            f == (|e: legion::Entity, p: Projectile| flown(*cvars, *map, targets@, p, dt, now)),
            updated_on(projectiles_of(*world), shots, ids@.take(i as int), f),
            vehicles_of(*world) == fleet,
            gs.explosions@ == old(gs).explosions@ + toll(
                *cvars,
                *map,
                targets@,
                ids@.take(i as int),
                shots,
                dt,
                now,
            ).blasts,
            gs.bfg_beams@ == old(gs).bfg_beams@ + toll(
                *cvars,
                *map,
                targets@,
                ids@.take(i as int),
                shots,
                dt,
                now,
            ).beams,
            to_kill@ == toll(*cvars, *map, targets@, ids@.take(i as int), shots, dt, now).kills,
            to_remove@ == toll(
                *cvars,
                *map,
                targets@,
                ids@.take(i as int),
                shots,
                dt,
                now,
            ).removed,
            gs.guided_missile == missile_after(old(gs).guided_missile, to_remove@),
            gs.frame_time == old(gs).frame_time,
            gs.dt == old(gs).dt,
            gs.input == old(gs).input,
            gs.rng == old(gs).rng,
            gs.normals == old(gs).normals,
            gs.railguns == old(gs).railguns,
            gs.player_entity == old(gs).player_entity,
        decreases ids.len() - i,
    {
        let proj_id = ids[i];
        proof {
            lemma_update_step(projectiles_of(*world), shots, ids@, i as int, f);
            assert(ids@.take(i + 1).drop_last() =~= ids@.take(i as int));
            assert(ids@.take(i + 1).last() == proj_id);
        }
        if let Some(mut projectile) = read_projectile(world, proj_id) {
            let ghost rest = toll(*cvars, *map, targets@, ids@.take(i as int), shots, dt, now);
            let mut impact = fly(cvars, map, &targets, &projectile, gs.dt, gs.frame_time);
            let ghost fl = impact@;
            projectile.pos = impact.pos;
            write_projectile(world, proj_id, projectile);
            gs.explosions.append(&mut impact.blasts);
            gs.bfg_beams.append(&mut impact.beams);
            to_kill.append(&mut impact.kills);
            if let Some(at) = impact.removed_at {
                let ghost removed = to_remove@;
                remove_projectile(cvars, gs, &mut to_remove, proj_id, projectile.weapon, at);
                gs.explosions.append(&mut impact.beam_blasts);
                proof {
                    lemma_missile_after_push(old(gs).guided_missile, removed, proj_id);
                    assert(gs.explosions@ =~= old(gs).explosions@ + (rest.blasts + fl.blasts + blast(
                        *cvars,
                        projectile.weapon,
                        at,
                        now,
                    ) + fl.beam_blasts));
                }
            } else {
                gs.explosions.append(&mut impact.beam_blasts);
                assert(gs.explosions@ =~= old(gs).explosions@ + (rest.blasts + fl.blasts
                    + fl.beam_blasts));
            }
            assert(gs.bfg_beams@ =~= old(gs).bfg_beams@ + (rest.beams + fl.beams));
        }
        i += 1;
    }
    proof {
        assert(ids@.take(ids.len() as int) =~= ids@);
        lemma_update_ends(projectiles_of(*world), shots, ids@, f);
    }

    remove_all(world, &to_remove);
    destroy_all(world, &to_kill);
}

} // verus!
