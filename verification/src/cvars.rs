//! The tunable values of the game, and how they are looked up by archetype.
//!
//! All numbers are fixed-point. The host owns the values; the simulation only reads them.
use vstd::prelude::*;
use crate::components::{VehicleType, Weapon};
use crate::vec2::Vec2;

verus! {

/// What governs how one archetype turns, accelerates and slows down.
#[derive(Clone, Copy, Debug, PartialEq, Eq, Structural)]
pub struct MovementStats {
    /// The largest turn rate, in either direction.
    pub turn_rate_max: i64,
    /// How much turn rate full steering adds in a second.
    pub turn_rate_increase: i64,
    /// How much turn rate constant friction removes in a second.
    pub turn_rate_friction_const: i64,
    /// The share of the turn rate that linear friction leaves over this
    /// frame: one minus the linear friction, raised to the frame's length.
    /// The host evaluates it whenever it sets the frame's length.
    pub turn_rate_retain: i64,
    /// The share of a turn that also turns the velocity.
    pub turn_effectiveness: i64,
    /// How much speed full throttle adds in a second.
    pub accel_forward: i64,
    /// How much speed constant friction removes in a second.
    pub friction_const: i64,
    /// The share of the speed that linear friction leaves over this frame,
    /// evaluated by the host like `turn_rate_retain`.
    pub speed_retain: i64,
    /// The largest speed.
    pub speed_max: i64,
}

/// Where on a vehicle a weapon is mounted.
#[derive(Clone, Copy, Debug, PartialEq, Eq, Structural)]
pub enum Hardpoint {
    Chassis,
    Turret,
}

/// A weapon's mount: the part it sits on and its offset on that part.
#[derive(Clone, Copy, Debug, PartialEq, Eq, Structural)]
pub struct Mount {
    pub hardpoint: Hardpoint,
    pub offset: Vec2,
}

/// The tunable values.
#[derive(Clone, Copy, Debug, PartialEq, Eq)]
pub struct Cvars {
    pub g_self_destruct_explosion1_scale: i64,
    pub g_self_destruct_explosion2_scale: i64,
    pub g_turret_turn_speed: i64,
    /// Movement of each kind of vehicle.
    pub g_vehicle_movement: [MovementStats; 3],
    /// Movement of the guided missile.
    pub g_weapon_movement: MovementStats,
    /// The turret's pivot on the chassis of each kind of vehicle.
    pub g_vehicle_turret_offsets: [Vec2; 3],
    /// The mount of each weapon on each kind of vehicle.
    pub g_hardpoints: [[Mount; 7]; 3],
    /// The time between two shots of each weapon.
    pub g_weapon_refires: [i64; 7],
    /// The time it takes to reload each weapon.
    pub g_weapon_reload_times: [i64; 7],
    /// The shots in a full magazine of each weapon.
    pub g_weapon_reload_ammos: [u32; 7],
    /// The scale of the explosion of each weapon's projectile, for those that explode.
    pub g_weapon_explosion_scales: [Option<i64>; 7],
    pub g_machine_gun_angle_spread: i64,
    pub g_machine_gun_speed: i64,
    pub g_machine_gun_vehicle_velocity_factor: i64,
    pub g_cluster_bomb_count: u32,
    pub g_cluster_bomb_speed: i64,
    pub g_cluster_bomb_speed_spread_forward: i64,
    pub g_cluster_bomb_speed_spread_gaussian: bool,
    pub g_cluster_bomb_speed_spread_sideways: i64,
    pub g_cluster_bomb_time: i64,
    pub g_cluster_bomb_time_spread: i64,
    pub g_cluster_bomb_vehicle_velocity_factor: i64,
    pub g_rockets_speed: i64,
    pub g_rockets_vehicle_velocity_factor: i64,
    pub g_homing_missile_speed_initial: i64,
    pub g_homing_missile_vehicle_velocity_factor: i64,
    pub g_guided_missile_speed_initial: i64,
    pub g_guided_missile_vehicle_velocity_factor: i64,
    pub g_bfg_speed: i64,
    pub g_bfg_vehicle_velocity_factor: i64,
    pub g_bfg_beam_range: i64,
}

impl Cvars {
    /// The movement values of a kind of vehicle.
    pub open spec fn vehicle_movement(self, veh_type: VehicleType) -> MovementStats {
        self.g_vehicle_movement@[veh_type.ordinal()]
    }

    /// The turret's pivot on the chassis of a kind of vehicle.
    pub open spec fn turret_offset(self, veh_type: VehicleType) -> Vec2 {
        self.g_vehicle_turret_offsets@[veh_type.ordinal()]
    }

    /// The mount of a weapon on a kind of vehicle.
    pub open spec fn hardpoint(self, veh_type: VehicleType, weapon: Weapon) -> Mount {
        self.g_hardpoints@[veh_type.ordinal()]@[weapon.ordinal()]
    }

    /// The time between two shots of a weapon.
    pub open spec fn refire(self, weapon: Weapon) -> i64 {
        self.g_weapon_refires@[weapon.ordinal()]
    }

    /// The time it takes to reload a weapon.
    pub open spec fn reload_time(self, weapon: Weapon) -> i64 {
        self.g_weapon_reload_times@[weapon.ordinal()]
    }

    /// The shots in a full magazine of a weapon.
    pub open spec fn reload_ammo(self, weapon: Weapon) -> u32 {
        self.g_weapon_reload_ammos@[weapon.ordinal()]
    }

    /// The scale of the explosion of a weapon's projectile, if it explodes.
    pub open spec fn explosion_scale(self, weapon: Weapon) -> Option<i64> {
        self.g_weapon_explosion_scales@[weapon.ordinal()]
    }

    /// The speed at which a weapon's projectile leaves the muzzle; the railgun has none.
    pub open spec fn muzzle_speed(self, weapon: Weapon) -> i64 {
        match weapon {
            Weapon::Mg => self.g_machine_gun_speed,
            Weapon::Rail => 0,
            Weapon::Cb => self.g_cluster_bomb_speed,
            Weapon::Rockets => self.g_rockets_speed,
            Weapon::Hm => self.g_homing_missile_speed_initial,
            Weapon::Gm => self.g_guided_missile_speed_initial,
            Weapon::Bfg => self.g_bfg_speed,
        }
    }

    /// The share of the firing vehicle's velocity that a weapon's projectile inherits.
    pub open spec fn velocity_factor(self, weapon: Weapon) -> i64 {
        match weapon {
            Weapon::Mg => self.g_machine_gun_vehicle_velocity_factor,
            Weapon::Rail => 0,
            Weapon::Cb => self.g_cluster_bomb_vehicle_velocity_factor,
            Weapon::Rockets => self.g_rockets_vehicle_velocity_factor,
            Weapon::Hm => self.g_homing_missile_vehicle_velocity_factor,
            Weapon::Gm => self.g_guided_missile_vehicle_velocity_factor,
            Weapon::Bfg => self.g_bfg_vehicle_velocity_factor,
        }
    }

    pub fn g_vehicle_movement_stats(&self, veh_type: VehicleType) -> (stats: MovementStats)
        ensures
            stats == self.vehicle_movement(veh_type),
    {
        self.g_vehicle_movement[veh_type.index()]
    }

    pub fn g_weapon_movement_stats(&self) -> (stats: MovementStats)
        ensures
            stats == self.g_weapon_movement,
    {
        self.g_weapon_movement
    }

    pub fn g_vehicle_turret_offset_chassis(&self, veh_type: VehicleType) -> (offset: Vec2)
        ensures
            offset == self.turret_offset(veh_type),
    {
        self.g_vehicle_turret_offsets[veh_type.index()]
    }

    pub fn g_hardpoint(&self, veh_type: VehicleType, weapon: Weapon) -> (mount: Mount)
        ensures
            mount == self.hardpoint(veh_type, weapon),
    {
        let row: &[Mount; 7] = &self.g_hardpoints[veh_type.index()];
        row[weapon.index()]
    }

    pub fn g_weapon_refire(&self, weapon: Weapon) -> (t: i64)
        ensures
            t == self.refire(weapon),
    {
        self.g_weapon_refires[weapon.index()]
    }

    pub fn g_weapon_reload_time(&self, weapon: Weapon) -> (t: i64)
        ensures
            t == self.reload_time(weapon),
    {
        self.g_weapon_reload_times[weapon.index()]
    }

    pub fn g_weapon_reload_ammo(&self, weapon: Weapon) -> (n: u32)
        ensures
            n == self.reload_ammo(weapon),
    {
        self.g_weapon_reload_ammos[weapon.index()]
    }

    pub fn g_weapon_explosion_scale(&self, weapon: Weapon) -> (scale: Option<i64>)
        ensures
            scale == self.explosion_scale(weapon),
    {
        self.g_weapon_explosion_scales[weapon.index()]
    }

    pub fn g_weapon_speed(&self, weapon: Weapon) -> (speed: i64)
        ensures
            speed == self.muzzle_speed(weapon),
    {
        match weapon {
            Weapon::Mg => self.g_machine_gun_speed,
            Weapon::Rail => 0,
            Weapon::Cb => self.g_cluster_bomb_speed,
            Weapon::Rockets => self.g_rockets_speed,
            Weapon::Hm => self.g_homing_missile_speed_initial,
            Weapon::Gm => self.g_guided_missile_speed_initial,
            Weapon::Bfg => self.g_bfg_speed,
        }
    }

    pub fn g_weapon_vehicle_velocity_factor(&self, weapon: Weapon) -> (factor: i64)
        ensures
            factor == self.velocity_factor(weapon),
    {
        match weapon {
            Weapon::Mg => self.g_machine_gun_vehicle_velocity_factor,
            Weapon::Rail => 0,
            Weapon::Cb => self.g_cluster_bomb_vehicle_velocity_factor,
            Weapon::Rockets => self.g_rockets_vehicle_velocity_factor,
            Weapon::Hm => self.g_homing_missile_vehicle_velocity_factor,
            Weapon::Gm => self.g_guided_missile_vehicle_velocity_factor,
            Weapon::Bfg => self.g_bfg_vehicle_velocity_factor,
        }
    }
}

} // verus!
