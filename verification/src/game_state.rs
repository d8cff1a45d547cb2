//! What changes from frame to frame besides the entities themselves.
use vstd::prelude::*;
use rand::Rng;
use crate::components::Input;
use crate::vec2::Vec2;

verus! {

/// `rand::rngs::SmallRng`, taken as it is: nothing is known of its state.
#[verifier::external_type_specification]
#[verifier::external_body]
pub struct ExSmallRng(rand::rngs::SmallRng);

/// An explosion for the renderer to draw.
#[derive(Clone, Copy, Debug, PartialEq, Eq, Structural)]
pub struct Explosion {
    pub pos: Vec2,
    pub scale: i64,
    pub start_time: i64,
    /// Whether it is the large explosion of the BFG.
    pub bfg: bool,
}

impl Explosion {
    pub fn new(pos: Vec2, scale: i64, start_time: i64, bfg: bool) -> (e: Explosion)
        ensures
            e == (Explosion { pos, scale, start_time, bfg }),
    {
        Explosion { pos, scale, start_time, bfg }
    }
}

/// The state of the current frame. The simulation appends to the three
/// event lists; the renderer empties them once drawn.
#[derive(Debug)]
pub struct GameState {
    /// The time of the current frame.
    pub frame_time: i64,
    /// The time since the previous frame.
    pub dt: i64,
    /// The player's controls in the current frame.
    pub input: Input,
    /// The source of uniformly distributed numbers.
    pub rng: rand::rngs::SmallRng,
    /// Standard normal deviates that the host has drawn ahead, fixed-point;
    /// they are used up from the back. Where none is left, a shot has no spread.
    pub normals: Vec<i64>,
    pub explosions: Vec<Explosion>,
    /// Origin and target of each BFG beam.
    pub bfg_beams: Vec<(Vec2, Vec2)>,
    /// Origin and point of impact of each railgun shot.
    pub railguns: Vec<(Vec2, Vec2)>,
    /// The guided missile in flight, if there is one.
    pub guided_missile: Option<legion::Entity>,
    /// The player's vehicle.
    pub player_entity: legion::Entity,
}

/// What the player steers.
#[derive(Clone, Copy, Debug, PartialEq, Eq)]
pub enum PlayerEntity {
    GuidedMissile(legion::Entity),
    Tank(legion::Entity),
}

impl GameState {
    /// What the player steers: the guided missile while one is in flight, else the vehicle.
    pub open spec fn steered(self) -> PlayerEntity {
        match self.guided_missile {
            Some(missile) => PlayerEntity::GuidedMissile(missile),
            None => PlayerEntity::Tank(self.player_entity),
        }
    }

    /// What the player steers: the guided missile while one is in flight, else the vehicle.
    pub fn controlled(&self) -> (p: PlayerEntity)
        ensures
            p == self.steered(),
    {
        match self.guided_missile {
            Some(missile) => PlayerEntity::GuidedMissile(missile),
            None => PlayerEntity::Tank(self.player_entity),
        }
    }

    /// The state with other event lists and nothing else changed.
    pub open spec fn same_but_events(self, before: GameState) -> bool {
        &&& self.frame_time == before.frame_time
        &&& self.dt == before.dt
        &&& self.input == before.input
        &&& self.rng == before.rng
        &&& self.normals == before.normals
        &&& self.guided_missile == before.guided_missile
        &&& self.player_entity == before.player_entity
    }

    /// The state after nothing but draws of chance: the random source has
    /// moved on and deviates were used up from the back.
    pub open spec fn same_but_chance(self, before: GameState) -> bool {
        &&& self.frame_time == before.frame_time
        &&& self.dt == before.dt
        &&& self.input == before.input
        &&& self.normals@.len() <= before.normals@.len()
        &&& self.normals@ == before.normals@.take(self.normals@.len() as int)
        &&& self.explosions == before.explosions
        &&& self.bfg_beams == before.bfg_beams
        &&& self.railguns == before.railguns
        &&& self.guided_missile == before.guided_missile
        &&& self.player_entity == before.player_entity
    }

    /// Takes the next normal deviate that the host has drawn ahead; 0 where none is left.
    pub fn take_normal(&mut self) -> (deviate: i64)
        ensures
            deviate == next_normal(old(self).normals@),
            final(self).normals@ == rest_normals(old(self).normals@),
            final(self).frame_time == old(self).frame_time,
            final(self).dt == old(self).dt,
            final(self).input == old(self).input,
            final(self).rng == old(self).rng,
            final(self).explosions == old(self).explosions,
            final(self).bfg_beams == old(self).bfg_beams,
            final(self).railguns == old(self).railguns,
            final(self).guided_missile == old(self).guided_missile,
            final(self).player_entity == old(self).player_entity,
    {
        match self.normals.pop() {
            Some(deviate) => deviate,
            None => 0,
        }
    }
}

/// The deviate that is taken next from the deviates drawn ahead.
pub open spec fn next_normal(normals: Seq<i64>) -> i64 {
    if normals.len() > 0 {
        normals.last()
    } else {
        0
    }
}

/// The deviates that remain once `n` of them have been asked for: they are
/// taken from the back, and asking for more than there are leaves none.
pub open spec fn after_draws(normals: Seq<i64>, n: nat) -> Seq<i64> {
    if n >= normals.len() {
        Seq::empty()
    } else {
        normals.take(normals.len() - n)
    }
}

/// Asking for deviates in two goes leaves what asking for all at once leaves.
pub proof fn lemma_after_draws(normals: Seq<i64>, a: nat, b: nat)
    ensures
        after_draws(after_draws(normals, a), b) == after_draws(normals, a + b),
        after_draws(normals, 0) == normals,
        after_draws(normals, 1) == rest_normals(normals),
        after_draws(normals, a).len() <= normals.len(),
        after_draws(normals, a) == normals.take(after_draws(normals, a).len() as int),
{
    assert(after_draws(after_draws(normals, a), b) =~= after_draws(normals, a + b));
    assert(after_draws(normals, 0) =~= normals);
    assert(after_draws(normals, 1) =~= rest_normals(normals));
    assert(after_draws(normals, a) =~= normals.take(after_draws(normals, a).len() as int));
}

/// The deviates that remain once the next one is taken.
pub open spec fn rest_normals(normals: Seq<i64>) -> Seq<i64> {
    if normals.len() > 0 {
        normals.drop_last()
    } else {
        normals
    }
}

/// `Rng::gen_range` on a `SmallRng` with `i64` bounds: some number from
/// `low` up to but not including `high`.
#[verifier::external_body]
pub(crate) fn uniform(rng: &mut rand::rngs::SmallRng, low: i64, high: i64) -> (r: i64)
    requires
        low < high,
    ensures
        low <= r < high,
{
    rng.gen_range(low, high)
}

} // verus!
