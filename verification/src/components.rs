//! What a vehicle and a projectile are made of.
use vstd::prelude::*;
use crate::fixed::TAU;
use crate::vec2::{v_sum, v_turned, Vec2};

verus! {

/// The number of weapon archetypes.
pub const WEAPS_CNT: u8 = 7;

/// A weapon archetype: the kind of a projectile, and the weapon a vehicle has selected.
#[derive(Clone, Copy, Debug, PartialEq, Eq, Structural)]
pub enum Weapon {
    Mg,
    Rail,
    Cb,
    Rockets,
    Hm,
    Gm,
    Bfg,
}

impl Weapon {
    /// The place of the archetype in the fixed list, from 0.
    pub open spec fn ordinal(self) -> int {
        match self {
            Weapon::Mg => 0,
            Weapon::Rail => 1,
            Weapon::Cb => 2,
            Weapon::Rockets => 3,
            Weapon::Hm => 4,
            Weapon::Gm => 5,
            Weapon::Bfg => 6,
        }
    }

    /// The archetype at place `i` of the list.
    pub open spec fn at(i: int) -> Weapon {
        if i == 0 {
            Weapon::Mg
        } else if i == 1 {
            Weapon::Rail
        } else if i == 2 {
            Weapon::Cb
        } else if i == 3 {
            Weapon::Rockets
        } else if i == 4 {
            Weapon::Hm
        } else if i == 5 {
            Weapon::Gm
        } else {
            Weapon::Bfg
        }
    }

    /// The archetype that follows in the list, the first after the last.
    pub open spec fn following(self) -> Weapon {
        Weapon::at((self.ordinal() + 1) % 7)
    }

    /// The archetype that precedes in the list, the last before the first.
    pub open spec fn preceding(self) -> Weapon {
        Weapon::at((self.ordinal() + 6) % 7)
    }

    /// The place of the archetype in the list, as an index into per-weapon tables.
    pub fn index(self) -> (i: usize)
        ensures
            i == self.ordinal(),
            i < 7,
    {
        match self {
            Weapon::Mg => 0,
            Weapon::Rail => 1,
            Weapon::Cb => 2,
            Weapon::Rockets => 3,
            Weapon::Hm => 4,
            Weapon::Gm => 5,
            Weapon::Bfg => 6,
        }
    }

    /// The archetype at place `i`, if there is one.
    pub fn n(i: u8) -> (w: Option<Weapon>)
        ensures
            i < WEAPS_CNT ==> w == Some(Weapon::at(i as int)),
            i >= WEAPS_CNT ==> w is None,
            w matches Some(weapon) ==> weapon.ordinal() == i,
    {
        match i {
            0 => Some(Weapon::Mg),
            1 => Some(Weapon::Rail),
            2 => Some(Weapon::Cb),
            3 => Some(Weapon::Rockets),
            4 => Some(Weapon::Hm),
            5 => Some(Weapon::Gm),
            6 => Some(Weapon::Bfg),
            _ => None,
        }
    }

    /// The next archetype, wrapping around.
    pub fn next(self) -> (w: Weapon)
        ensures
            w == self.following(),
            w.ordinal() == (self.ordinal() + 1) % 7,
    {
        match self {
            Weapon::Mg => Weapon::Rail,
            Weapon::Rail => Weapon::Cb,
            Weapon::Cb => Weapon::Rockets,
            Weapon::Rockets => Weapon::Hm,
            Weapon::Hm => Weapon::Gm,
            Weapon::Gm => Weapon::Bfg,
            Weapon::Bfg => Weapon::Mg,
        }
    }

    /// The previous archetype, wrapping around.
    pub fn prev(self) -> (w: Weapon)
        ensures
            w == self.preceding(),
            w.ordinal() == (self.ordinal() + 6) % 7,
    {
        match self {
            Weapon::Mg => Weapon::Bfg,
            Weapon::Rail => Weapon::Mg,
            Weapon::Cb => Weapon::Rail,
            Weapon::Rockets => Weapon::Cb,
            Weapon::Hm => Weapon::Rockets,
            Weapon::Gm => Weapon::Hm,
            Weapon::Bfg => Weapon::Gm,
        }
    }
}

/// Stepping forward and then back, or back and then forward, selects the same weapon again.
pub proof fn weapon_steps_undo_each_other(w: Weapon)
    ensures
        w.following().preceding() == w,
        w.preceding().following() == w,
        Weapon::at(w.ordinal()) == w,
{
}

/// The magazine of one weapon: ready to fire, or being refilled.
#[derive(Clone, Copy, Debug, PartialEq, Eq, Structural)]
pub enum Ammo {
    /// The time from which the next shot may be fired, and the shots that remain.
    Loaded(i64, u32),
    /// The times at which the reload began and at which it ends.
    Reloading(i64, i64),
}

/// The kind of a vehicle.
#[derive(Clone, Copy, Debug, PartialEq, Eq, Structural)]
pub enum VehicleType {
    Tank,
    Hovercraft,
    Hummer,
}

impl VehicleType {
    /// The place of the kind in per-vehicle tables.
    pub open spec fn ordinal(self) -> int {
        match self {
            VehicleType::Tank => 0,
            VehicleType::Hovercraft => 1,
            VehicleType::Hummer => 2,
        }
    }

    pub fn index(self) -> (i: usize)
        ensures
            i == self.ordinal(),
            i < 3,
    {
        match self {
            VehicleType::Tank => 0,
            VehicleType::Hovercraft => 1,
            VehicleType::Hummer => 2,
        }
    }
}

/// One tick's controls of one steerable entity.
#[derive(Clone, Copy, Debug, PartialEq, Eq, Structural)]
pub struct Input {
    pub left: bool,
    pub right: bool,
    pub up: bool,
    pub down: bool,
    pub turret_left: bool,
    pub turret_right: bool,
    pub prev_weapon: bool,
    pub next_weapon: bool,
    pub fire: bool,
    pub self_destruct: bool,
}

/// The value of an axis with one control for each direction.
pub open spec fn axis(positive: bool, negative: bool) -> int {
    (if positive { 1int } else { 0int }) - (if negative { 1int } else { 0int })
}

impl Input {
    /// The controls with nothing pressed.
    pub open spec fn neutral() -> Input {
        Input {
            left: false,
            right: false,
            up: false,
            down: false,
            turret_left: false,
            turret_right: false,
            prev_weapon: false,
            next_weapon: false,
            fire: false,
            self_destruct: false,
        }
    }

    /// The controls with nothing pressed.
    pub fn empty() -> (input: Input)
        ensures
            input == Input::neutral(),
    {
        Input {
            left: false,
            right: false,
            up: false,
            down: false,
            turret_left: false,
            turret_right: false,
            prev_weapon: false,
            next_weapon: false,
            fire: false,
            self_destruct: false,
        }
    }

    /// The steering axis: 1 to the right, -1 to the left, 0 for neither or both.
    pub fn right_left(&self) -> (a: i64)
        ensures
            a == axis(self.right, self.left),
    {
        let r: i64 = if self.right { 1 } else { 0 };
        let l: i64 = if self.left { 1 } else { 0 };
        r - l
    }

    /// The throttle axis: 1 forward, -1 backward, 0 for neither or both.
    pub fn up_down(&self) -> (a: i64)
        ensures
            a == axis(self.up, self.down),
    {
        let u: i64 = if self.up { 1 } else { 0 };
        let d: i64 = if self.down { 1 } else { 0 };
        u - d
    }
}

/// An oriented rectangle around a vehicle, given by two opposite corners
/// relative to the vehicle's position at heading zero.
#[derive(Clone, Copy, Debug, PartialEq, Eq, Structural)]
pub struct Hitbox {
    pub mins: Vec2,
    pub maxs: Vec2,
}

/// A point given relative to a body, placed in the world for the body's position and direction.
pub open spec fn placed(offset: Vec2, pos: Vec2, dir: Vec2) -> Vec2 {
    v_sum(pos, v_turned(offset, dir))
}

impl Hitbox {
    /// The four corners for a body at `pos` heading along `dir`.
    pub open spec fn corners_at(self, pos: Vec2, dir: Vec2) -> Seq<Vec2> {
        seq![
            placed(self.mins, pos, dir),
            placed(Vec2 { x: self.mins.x, y: self.maxs.y }, pos, dir),
            placed(Vec2 { x: self.maxs.x, y: self.mins.y }, pos, dir),
            placed(self.maxs, pos, dir),
        ]
    }

    /// The four corners for a body at `pos` heading along `dir`.
    pub fn corners(&self, pos: Vec2, dir: Vec2) -> (c: [Vec2; 4])
        ensures
            c@ == self.corners_at(pos, dir),
    {
        let c = [
            pos.plus(self.mins.turned(dir)),
            pos.plus(Vec2 { x: self.mins.x, y: self.maxs.y }.turned(dir)),
            pos.plus(Vec2 { x: self.maxs.x, y: self.mins.y }.turned(dir)),
            pos.plus(self.maxs.turned(dir)),
        ];
        assert(c@ =~= self.corners_at(pos, dir));
        c
    }
}

/// A vehicle with everything that moves and arms it.
#[derive(Clone, Copy, Debug, PartialEq, Eq)]
pub struct Vehicle {
    pub veh_type: VehicleType,
    pub destroyed: bool,
    pub cur_weapon: Weapon,
    /// The turret's angle relative to the chassis; it accumulates without wrapping.
    pub turret_angle: i64,
    /// One magazine for each weapon archetype, in the order of the archetypes.
    pub ammos: [Ammo; 7],
    pub pos: Vec2,
    pub vel: Vec2,
    /// The heading in `[0, TAU)`.
    pub angle: i64,
    pub turn_rate: i64,
    pub hitbox: Hitbox,
    pub input: Input,
}

impl Vehicle {
    /// What holds of every vehicle in the store: its heading is normalized.
    pub open spec fn wf(self) -> bool {
        0 <= self.angle < TAU
    }

    /// The magazine of the selected weapon.
    pub open spec fn cur_ammo(self) -> Ammo {
        self.ammos@[self.cur_weapon.ordinal()]
    }

    /// The vehicle with the magazine of the selected weapon replaced.
    pub open spec fn with_cur_ammo(self, ammo: Ammo) -> Vehicle {
        Vehicle {
            ammos: crate::components::array_with(self.ammos, self.cur_weapon.ordinal(), ammo),
            ..self
        }
    }
}

/// The array `a` with place `i` set to `ammo`.
pub open spec fn array_with(a: [Ammo; 7], i: int, ammo: Ammo) -> [Ammo; 7] {
    [
        if i == 0 { ammo } else { a@[0] },
        if i == 1 { ammo } else { a@[1] },
        if i == 2 { ammo } else { a@[2] },
        if i == 3 { ammo } else { a@[3] },
        if i == 4 { ammo } else { a@[4] },
        if i == 5 { ammo } else { a@[5] },
        if i == 6 { ammo } else { a@[6] },
    ]
}

/// Replaces the magazine at place `i`.
pub fn set_ammo(ammos: &mut [Ammo; 7], i: usize, ammo: Ammo)
    requires
        i < 7,
    ensures
        *final(ammos) == array_with(*old(ammos), i as int, ammo),
        final(ammos)@ == old(ammos)@.update(i as int, ammo),
{
    ammos[i] = ammo;
    assert(ammos@ =~= array_with(*old(ammos), i as int, ammo)@);
    assert(*ammos =~= array_with(*old(ammos), i as int, ammo));
}

/// What steers a projectile that can be steered after launch.
#[derive(Clone, Copy, Debug, PartialEq, Eq, Structural)]
pub struct Guidance {
    /// The heading in `[0, TAU)`.
    pub angle: i64,
    pub turn_rate: i64,
    pub input: Input,
}

/// A projectile in flight.
#[derive(Clone, Copy, Debug, PartialEq, Eq)]
pub struct Projectile {
    pub weapon: Weapon,
    pub pos: Vec2,
    pub vel: Vec2,
    /// The vehicle that fired it; it may have left the store since.
    pub owner: legion::Entity,
    /// The time after which the projectile expires, for those that do.
    pub expiry: Option<i64>,
    /// Heading and controls, for the guided missile only.
    pub guidance: Option<Guidance>,
}

} // verus!
