use combat_core::components::{
    Ammo, Guidance, Hitbox, Input, Projectile, Vehicle, VehicleType, Weapon,
};
use combat_core::cvars::{Cvars, Hardpoint, Mount, MovementStats};
use combat_core::fixed::{ONE, TAU};
use combat_core::game_state::{Explosion, GameState, PlayerEntity};
use combat_core::map::TileMap;
use combat_core::store::{list_projectiles, list_vehicles, remove_all};
use combat_core::systems::projectiles::{fly, Target, HIT_RADIUS};
use combat_core::systems::shooting::{
    aim, deviates_for_tick, draw_scatter, make_cluster_bomblet, make_guided_round, make_machine_gun_round,
    make_plain_round, pull_trigger, shoot, Muzzle, Scatter, RAIL_RANGE, SCATTER_LIMIT,
};
use combat_core::systems::vehicle_logic::tick_vehicle;
use combat_core::systems::{
    gm_turning, projectiles, projectiles_timeout, remove_projectile, self_destruct, shooting,
    vehicle_logic, vehicle_movement,
};
use combat_core::trig::Trig;
use combat_core::vec2::Vec2;
use legion::{Entity, EntityStore, IntoQuery, World};
use rand::rngs::SmallRng;
use rand::{Rng, SeedableRng};

const TILE: i64 = 64 * ONE;
const NOW: i64 = 10 * ONE;

fn table(slots: usize) -> Trig {
    let mut cos = Vec::new();
    let mut sin = Vec::new();
    for i in 0..slots {
        let angle = (i as f64) * std::f64::consts::PI * 2.0 / (slots as f64);
        cos.push((angle.cos() * 1_000_000.0).round() as i64);
        sin.push((angle.sin() * 1_000_000.0).round() as i64);
    }
    Trig::new(cos, sin).unwrap()
}

fn coasting() -> MovementStats {
    MovementStats {
        turn_rate_max: 10 * ONE,
        turn_rate_increase: 2 * ONE,
        turn_rate_friction_const: 0,
        turn_rate_retain: ONE,
        turn_effectiveness: 0,
        accel_forward: 0,
        friction_const: 0,
        speed_retain: ONE,
        speed_max: 10_000 * ONE,
    }
}

fn cvars() -> Cvars {
    let mount = Mount { hardpoint: Hardpoint::Chassis, offset: Vec2::zero() };
    Cvars {
        g_self_destruct_explosion1_scale: 2 * ONE,
        g_self_destruct_explosion2_scale: ONE / 2,
        g_turret_turn_speed: 2 * ONE,
        g_vehicle_movement: [coasting(); 3],
        g_weapon_movement: coasting(),
        g_vehicle_turret_offsets: [Vec2::zero(); 3],
        g_hardpoints: [[mount; 7]; 3],
        g_weapon_refires: [ONE / 10; 7],
        g_weapon_reload_times: [2 * ONE; 7],
        g_weapon_reload_ammos: [5; 7],
        g_weapon_explosion_scales: [
            None,
            None,
            Some(ONE),
            Some(ONE),
            Some(ONE),
            Some(3 * ONE / 2),
            Some(2 * ONE),
        ],
        g_machine_gun_angle_spread: 0,
        g_machine_gun_speed: 1_000 * ONE,
        g_machine_gun_vehicle_velocity_factor: 0,
        g_cluster_bomb_count: 20,
        g_cluster_bomb_speed: 400 * ONE,
        g_cluster_bomb_speed_spread_forward: 40 * ONE,
        g_cluster_bomb_speed_spread_gaussian: false,
        g_cluster_bomb_speed_spread_sideways: 30 * ONE,
        g_cluster_bomb_time: ONE,
        g_cluster_bomb_time_spread: ONE / 5,
        g_cluster_bomb_vehicle_velocity_factor: 0,
        g_rockets_speed: 600 * ONE,
        g_rockets_vehicle_velocity_factor: ONE,
        g_homing_missile_speed_initial: 300 * ONE,
        g_homing_missile_vehicle_velocity_factor: ONE / 2,
        g_guided_missile_speed_initial: 360 * ONE,
        g_guided_missile_vehicle_velocity_factor: 0,
        g_bfg_speed: 500 * ONE,
        g_bfg_vehicle_velocity_factor: 0,
        g_bfg_beam_range: 220 * ONE,
    }
}

fn vehicle(pos: Vec2, weapon: Weapon) -> Vehicle {
    Vehicle {
        veh_type: VehicleType::Tank,
        destroyed: false,
        cur_weapon: weapon,
        turret_angle: 0,
        ammos: [Ammo::Loaded(0, 50); 7],
        pos,
        vel: Vec2::zero(),
        angle: 0,
        turn_rate: 0,
        hitbox: Hitbox { mins: Vec2::new(-10 * ONE, -5 * ONE), maxs: Vec2::new(10 * ONE, 5 * ONE) },
        input: Input::empty(),
    }
}

fn round(weapon: Weapon, pos: Vec2, vel: Vec2, owner: Entity) -> Projectile {
    Projectile { weapon, pos, vel, owner, expiry: None, guidance: None }
}

fn game(player: Entity) -> GameState {
    GameState {
        frame_time: NOW,
        dt: ONE,
        input: Input::empty(),
        rng: SmallRng::seed_from_u64(17),
        normals: Vec::new(),
        explosions: Vec::new(),
        bfg_beams: Vec::new(),
        railguns: Vec::new(),
        guided_missile: None,
        player_entity: player,
    }
}

/// Ten by ten open tiles.
fn open_map() -> TileMap {
    TileMap::new(vec![vec![false; 10]; 10], TILE).unwrap()
}

/// Ten by ten tiles, open but for the given column.
fn walled_map(column: usize) -> TileMap {
    let mut row = vec![false; 10];
    row[column] = true;
    TileMap::new(vec![row; 10], TILE).unwrap()
}

fn vehicle_of(world: &World, id: Entity) -> Vehicle {
    *world.entry_ref(id).unwrap().get_component::<Vehicle>().unwrap()
}

fn projectile_of(world: &World, id: Entity) -> Projectile {
    *world.entry_ref(id).unwrap().get_component::<Projectile>().unwrap()
}

fn all_projectiles(world: &World) -> Vec<(Entity, Projectile)> {
    <(Entity, &Projectile)>::query().iter(world).map(|(id, p)| (*id, *p)).collect()
}

fn all_vehicles(world: &World) -> Vec<(Entity, Vehicle)> {
    <(Entity, &Vehicle)>::query().iter(world).map(|(id, v)| (*id, *v)).collect()
}

#[test]
fn self_destruct_destroys_with_two_explosions() {
    let mut world = World::default();
    let whole = world.push((vehicle(Vec2::new(3 * ONE, 4 * ONE), Weapon::Mg),));
    let mut wreck = vehicle(Vec2::new(7 * ONE, 8 * ONE), Weapon::Mg);
    wreck.destroyed = true;
    let wreck = world.push((wreck,));
    let shot = world.push((round(Weapon::Rockets, Vec2::zero(), Vec2::zero(), whole),));
    let mut gs = game(whole);
    gs.input.self_destruct = true;
    gs.explosions.push(Explosion::new(Vec2::zero(), 1, 2, true));

    self_destruct(&cvars(), &mut world, &mut gs);

    assert!(vehicle_of(&world, whole).destroyed);
    assert!(vehicle_of(&world, wreck).destroyed);
    assert_eq!(vehicle_of(&world, whole).pos, Vec2::new(3 * ONE, 4 * ONE));
    assert_eq!(
        gs.explosions,
        vec![
            Explosion { pos: Vec2::zero(), scale: 1, start_time: 2, bfg: true },
            Explosion { pos: Vec2::new(3 * ONE, 4 * ONE), scale: 2 * ONE, start_time: NOW, bfg: false },
            Explosion { pos: Vec2::new(3 * ONE, 4 * ONE), scale: ONE / 2, start_time: NOW, bfg: false },
        ]
    );
    assert_eq!(world.len(), 3);
    assert_eq!(projectile_of(&world, shot), round(Weapon::Rockets, Vec2::zero(), Vec2::zero(), whole));

    // a second pass finds nothing left to destroy
    self_destruct(&cvars(), &mut world, &mut gs);
    assert_eq!(gs.explosions.len(), 3);
}

#[test]
fn self_destruct_waits_for_the_control() {
    let mut world = World::default();
    let id = world.push((vehicle(Vec2::new(3 * ONE, 4 * ONE), Weapon::Mg),));
    let mut gs = game(id);
    self_destruct(&cvars(), &mut world, &mut gs);
    assert!(!vehicle_of(&world, id).destroyed);
    assert!(gs.explosions.is_empty());
}

#[test]
fn vehicles_move_by_the_values_of_their_kind() {
    let trig = table(4096);
    let map = open_map();
    let mut cvars = cvars();
    cvars.g_vehicle_movement[VehicleType::Hummer.index()].speed_retain = ONE / 2;
    let mut world = World::default();
    let mut tank = vehicle(Vec2::new(2 * TILE, 2 * TILE), Weapon::Mg);
    tank.vel = Vec2::new(8 * ONE, -2 * ONE);
    let mut hummer = tank;
    hummer.veh_type = VehicleType::Hummer;
    hummer.pos = Vec2::new(4 * TILE, 4 * TILE);
    let mut wreck = tank;
    wreck.destroyed = true;
    let tank_id = world.push((tank,));
    let hummer_id = world.push((hummer,));
    let wreck_id = world.push((wreck,));
    let mut gs = game(tank_id);
    gs.dt = ONE / 2;

    vehicle_movement(&cvars, &mut world, &gs, &map, &trig);

    let moved = vehicle_of(&world, tank_id);
    assert_eq!(moved.vel, Vec2::new(8 * ONE, -2 * ONE));
    assert_eq!(moved.pos, Vec2::new(2 * TILE + 4 * ONE, 2 * TILE - ONE));
    let moved = vehicle_of(&world, hummer_id);
    assert_eq!(moved.vel, Vec2::new(4 * ONE, -ONE));
    assert_eq!(moved.pos, Vec2::new(4 * TILE + 2 * ONE, 4 * TILE - ONE / 2));
    assert_eq!(vehicle_of(&world, wreck_id), wreck);
}

#[test]
fn weapon_controls_count_when_they_go_down() {
    let cvars = cvars();
    let mut pressed = Input::empty();
    pressed.next_weapon = true;
    let mut v = vehicle(Vec2::zero(), Weapon::Bfg);
    v.input = pressed;
    tick_vehicle(&cvars, &mut v, &Input::empty(), &Input::empty(), ONE, NOW);
    assert_eq!(v.cur_weapon, Weapon::Mg);
    // still held in the next frame: no further step
    tick_vehicle(&cvars, &mut v, &Input::empty(), &pressed, ONE, NOW);
    assert_eq!(v.cur_weapon, Weapon::Mg);

    let mut back = Input::empty();
    back.prev_weapon = true;
    v.input = back;
    tick_vehicle(&cvars, &mut v, &Input::empty(), &pressed, ONE, NOW);
    assert_eq!(v.cur_weapon, Weapon::Bfg);
    tick_vehicle(&cvars, &mut v, &Input::empty(), &back, ONE, NOW);
    assert_eq!(v.cur_weapon, Weapon::Bfg);

    // both at once: one step back and one forward
    let mut both = Input::empty();
    both.prev_weapon = true;
    both.next_weapon = true;
    v.input = both;
    tick_vehicle(&cvars, &mut v, &Input::empty(), &Input::empty(), ONE, NOW);
    assert_eq!(v.cur_weapon, Weapon::Bfg);
}

#[test]
fn the_turret_turns_by_the_players_controls() {
    let cvars = cvars();
    let mut v = vehicle(Vec2::zero(), Weapon::Mg);
    let mut left = Input::empty();
    left.turret_left = true;
    tick_vehicle(&cvars, &mut v, &left, &Input::empty(), ONE / 4, NOW);
    assert_eq!(v.turret_angle, -ONE / 2);
    let mut right = Input::empty();
    right.turret_right = true;
    tick_vehicle(&cvars, &mut v, &right, &Input::empty(), ONE, NOW);
    assert_eq!(v.turret_angle, 3 * ONE / 2);
    // the angle accumulates without wrapping
    tick_vehicle(&cvars, &mut v, &right, &Input::empty(), 10 * ONE, NOW);
    assert_eq!(v.turret_angle, 3 * ONE / 2 + 20 * ONE);
    let mut both = left;
    both.turret_right = true;
    tick_vehicle(&cvars, &mut v, &both, &Input::empty(), ONE, NOW);
    assert_eq!(v.turret_angle, 3 * ONE / 2 + 20 * ONE);
    // the vehicle's own turret controls do not count
    v.input = left;
    tick_vehicle(&cvars, &mut v, &Input::empty(), &Input::empty(), ONE, NOW);
    assert_eq!(v.turret_angle, 3 * ONE / 2 + 20 * ONE);
}

#[test]
fn a_finished_reload_leaves_a_full_magazine() {
    let mut cvars = cvars();
    cvars.g_weapon_reload_ammos[Weapon::Rockets.index()] = 9;
    let mut v = vehicle(Vec2::zero(), Weapon::Rockets);
    v.ammos[Weapon::Rockets.index()] = Ammo::Reloading(NOW - 2 * ONE, NOW);
    let before = v;
    tick_vehicle(&cvars, &mut v, &Input::empty(), &Input::empty(), ONE, NOW - 1);
    assert_eq!(v, before);
    tick_vehicle(&cvars, &mut v, &Input::empty(), &Input::empty(), ONE, NOW);
    assert_eq!(v.ammos[Weapon::Rockets.index()], Ammo::Loaded(NOW, 9));
    assert_eq!(v.ammos[Weapon::Mg.index()], Ammo::Loaded(0, 50));
}

#[test]
fn reloads_finish_whichever_weapon_is_selected() {
    let mut cvars = cvars();
    cvars.g_weapon_reload_ammos = [1, 2, 3, 4, 5, 6, 7];
    let mut v = vehicle(Vec2::zero(), Weapon::Rockets);
    v.ammos = [
        Ammo::Reloading(0, NOW),
        Ammo::Reloading(0, NOW + 1),
        Ammo::Loaded(NOW + 5, 2),
        Ammo::Reloading(NOW, NOW),
        Ammo::Reloading(0, 1),
        Ammo::Reloading(0, i64::MAX),
        Ammo::Reloading(0, i64::MIN),
    ];
    v.input.next_weapon = true;
    tick_vehicle(&cvars, &mut v, &Input::empty(), &Input::empty(), ONE, NOW);
    assert_eq!(v.cur_weapon, Weapon::Hm);
    assert_eq!(
        v.ammos,
        [
            Ammo::Loaded(NOW, 1),
            Ammo::Reloading(0, NOW + 1),
            Ammo::Loaded(NOW + 5, 2),
            Ammo::Loaded(NOW, 4),
            Ammo::Loaded(NOW, 5),
            Ammo::Reloading(0, i64::MAX),
            Ammo::Loaded(NOW, 7),
        ]
    );

    // through the store as well
    let mut world = World::default();
    let mut waiting = vehicle(Vec2::zero(), Weapon::Mg);
    waiting.ammos[Weapon::Bfg.index()] = Ammo::Reloading(0, NOW);
    waiting.ammos[Weapon::Cb.index()] = Ammo::Reloading(0, NOW + 1);
    let id = world.push((waiting,));
    let mut gs = game(id);
    let prev = game(id);
    vehicle_logic(&cvars, &mut world, &mut gs, &prev);
    let after = vehicle_of(&world, id);
    assert_eq!(after.cur_weapon, Weapon::Mg);
    assert_eq!(after.ammos[Weapon::Bfg.index()], Ammo::Loaded(NOW, 7));
    assert_eq!(after.ammos[Weapon::Cb.index()], Ammo::Reloading(0, NOW + 1));
    assert_eq!(after.ammos[Weapon::Mg.index()], Ammo::Loaded(0, 50));
}

#[test]
fn vehicle_logic_runs_for_every_vehicle() {
    let cvars = cvars();
    let mut world = World::default();
    let mut first = vehicle(Vec2::zero(), Weapon::Mg);
    first.input.next_weapon = true;
    let mut second = vehicle(Vec2::zero(), Weapon::Gm);
    second.destroyed = true;
    second.ammos[Weapon::Gm.index()] = Ammo::Reloading(0, NOW);
    let first_id = world.push((first,));
    let second_id = world.push((second,));
    let mut gs = game(first_id);
    gs.input.turret_right = true;
    gs.dt = ONE / 2;
    let mut prev = game(first_id);
    prev.input.next_weapon = false;

    vehicle_logic(&cvars, &mut world, &mut gs, &prev);

    let first = vehicle_of(&world, first_id);
    assert_eq!(first.cur_weapon, Weapon::Rail);
    assert_eq!(first.turret_angle, ONE);
    let second = vehicle_of(&world, second_id);
    assert_eq!(second.cur_weapon, Weapon::Gm);
    assert_eq!(second.turret_angle, ONE);
    assert_eq!(second.ammos[Weapon::Gm.index()], Ammo::Loaded(NOW, 5));
    assert!(second.destroyed);

    prev.input.next_weapon = true;
    vehicle_logic(&cvars, &mut world, &mut gs, &prev);
    assert_eq!(vehicle_of(&world, first_id).cur_weapon, Weapon::Rail);
}

#[test]
fn a_machine_gun_round_leaves_at_muzzle_speed() {
    let trig = table(4096);
    let map = open_map();
    let cvars = cvars();
    let mut world = World::default();
    let shooter = world.push((vehicle(Vec2::zero(), Weapon::Mg),));
    let mut gs = game(shooter);
    gs.input.fire = true;

    shooting(&cvars, &mut world, &mut gs, &map, &trig);

    let rounds = all_projectiles(&world);
    assert_eq!(rounds.len(), 1);
    let shot = rounds[0].1;
    assert_eq!(shot.vel, Vec2::new(cvars.g_machine_gun_speed, 0));
    assert_eq!(shot.pos, Vec2::zero());
    assert_eq!(shot.weapon, Weapon::Mg);
    assert_eq!(shot.owner, shooter);
    assert_eq!(shot.expiry, None);
    assert_eq!(shot.guidance, None);
    assert_eq!(vehicle_of(&world, shooter).ammos[0], Ammo::Loaded(NOW + ONE / 10, 49));
    assert_eq!(gs.guided_missile, None);
    assert!(gs.explosions.is_empty() && gs.railguns.is_empty() && gs.bfg_beams.is_empty());
}

#[test]
fn a_shot_waits_for_the_refire_time() {
    let trig = table(4096);
    let map = open_map();
    let cvars = cvars();
    let mut world = World::default();
    let shooter = world.push((vehicle(Vec2::zero(), Weapon::Rockets),));
    let mut gs = game(shooter);
    gs.input.fire = true;
    shooting(&cvars, &mut world, &mut gs, &map, &trig);
    assert_eq!(all_projectiles(&world).len(), 1);
    gs.frame_time = NOW + ONE / 10 - 1;
    shooting(&cvars, &mut world, &mut gs, &map, &trig);
    assert_eq!(all_projectiles(&world).len(), 1);
    assert_eq!(vehicle_of(&world, shooter).ammos[3], Ammo::Loaded(NOW + ONE / 10, 49));
    gs.frame_time = NOW + ONE / 10;
    shooting(&cvars, &mut world, &mut gs, &map, &trig);
    assert_eq!(all_projectiles(&world).len(), 2);
    assert_eq!(vehicle_of(&world, shooter).ammos[3], Ammo::Loaded(NOW + 2 * ONE / 10, 48));
}

#[test]
fn the_last_shot_starts_the_reload_and_the_reload_refills() {
    let trig = table(4096);
    let map = open_map();
    let cvars = cvars();
    let mut world = World::default();
    let mut armed = vehicle(Vec2::zero(), Weapon::Hm);
    armed.ammos[Weapon::Hm.index()] = Ammo::Loaded(NOW, 1);
    let shooter = world.push((armed,));
    let mut gs = game(shooter);
    gs.input.fire = true;

    shooting(&cvars, &mut world, &mut gs, &map, &trig);
    assert_eq!(all_projectiles(&world).len(), 1);
    assert_eq!(vehicle_of(&world, shooter).ammos[4], Ammo::Reloading(NOW, NOW + 2 * ONE));

    // while it reloads the weapon does not fire, whatever the time
    for later in [NOW, NOW + ONE, NOW + 2 * ONE, NOW + 100 * ONE] {
        gs.frame_time = later;
        shooting(&cvars, &mut world, &mut gs, &map, &trig);
        assert_eq!(all_projectiles(&world).len(), 1);
        assert_eq!(vehicle_of(&world, shooter).ammos[4], Ammo::Reloading(NOW, NOW + 2 * ONE));
    }

    let prev = game(shooter);
    gs.frame_time = NOW + 2 * ONE - 1;
    vehicle_logic(&cvars, &mut world, &mut gs, &prev);
    assert_eq!(vehicle_of(&world, shooter).ammos[4], Ammo::Reloading(NOW, NOW + 2 * ONE));
    gs.frame_time = NOW + 2 * ONE;
    vehicle_logic(&cvars, &mut world, &mut gs, &prev);
    assert_eq!(vehicle_of(&world, shooter).ammos[4], Ammo::Loaded(NOW + 2 * ONE, 5));

    // and the full magazine is ready at once
    shooting(&cvars, &mut world, &mut gs, &map, &trig);
    assert_eq!(all_projectiles(&world).len(), 2);
    assert_eq!(vehicle_of(&world, shooter).ammos[4], Ammo::Loaded(NOW + 2 * ONE + ONE / 10, 4));
}

#[test]
fn an_empty_magazine_reloads_instead_of_firing_below_zero() {
    let cvars = cvars();
    let mut v = vehicle(Vec2::zero(), Weapon::Mg);
    v.ammos[0] = Ammo::Loaded(0, 0);
    assert!(pull_trigger(&cvars, &mut v, true, true, NOW));
    assert_eq!(v.ammos[0], Ammo::Reloading(NOW, NOW + 2 * ONE));
}

#[test]
fn the_trigger_needs_a_whole_vehicle_and_the_control() {
    let cvars = cvars();
    let armed = vehicle(Vec2::zero(), Weapon::Bfg);
    let mut v = armed;
    assert!(!pull_trigger(&cvars, &mut v, true, false, NOW));
    assert_eq!(v, armed);
    v.destroyed = true;
    assert!(!pull_trigger(&cvars, &mut v, true, true, NOW));
    assert!(v.destroyed);
    assert_eq!(v.ammos, armed.ammos);
    let mut v = armed;
    v.ammos[Weapon::Bfg.index()] = Ammo::Loaded(NOW + 1, 3);
    assert!(!pull_trigger(&cvars, &mut v, true, true, NOW));
    assert_eq!(v.ammos[Weapon::Bfg.index()], Ammo::Loaded(NOW + 1, 3));
    let mut v = armed;
    assert!(pull_trigger(&cvars, &mut v, false, true, NOW));
    assert_eq!(v.ammos[Weapon::Bfg.index()], Ammo::Loaded(NOW + ONE / 10, 49));
    // the other magazines are left alone
    for i in 0..6 {
        assert_eq!(v.ammos[i], Ammo::Loaded(0, 50));
    }
}

#[test]
fn weapons_fire_from_their_mounts() {
    let trig = table(4);
    let mut cvars = cvars();
    let quarter = (TAU + 3) / 4 + 1;
    cvars.g_hardpoints[0][Weapon::Rockets.index()] =
        Mount { hardpoint: Hardpoint::Chassis, offset: Vec2::new(10 * ONE, 2 * ONE) };
    cvars.g_hardpoints[0][Weapon::Mg.index()] =
        Mount { hardpoint: Hardpoint::Turret, offset: Vec2::new(8 * ONE, ONE) };
    cvars.g_vehicle_turret_offsets[0] = Vec2::new(-3 * ONE, 0);
    let mut v = vehicle(Vec2::new(100 * ONE, 200 * ONE), Weapon::Rockets);
    v.angle = quarter;
    v.turret_angle = quarter;
    // on the chassis: the offset turns a quarter with the chassis
    assert_eq!(
        aim(&cvars, &trig, &v),
        Muzzle { origin: Vec2::new(98 * ONE, 210 * ONE), angle: quarter }
    );
    // on the turret: the pivot turns a quarter, the weapon a half
    v.cur_weapon = Weapon::Mg;
    assert_eq!(
        aim(&cvars, &trig, &v),
        Muzzle { origin: Vec2::new(92 * ONE, 196 * ONE), angle: 2 * quarter }
    );
    // a hovercraft has mounts of its own
    v.veh_type = VehicleType::Hovercraft;
    assert_eq!(aim(&cvars, &trig, &v), Muzzle { origin: v.pos, angle: quarter });
}

#[test]
fn rounds_inherit_a_share_of_the_vehicles_velocity() {
    let trig = table(4);
    let cvars = cvars();
    let mut world = World::default();
    let owner = world.push((0u8,));
    let m = Muzzle { origin: Vec2::new(5, 6), angle: (TAU + 3) / 4 + 1 };
    let veh_vel = Vec2::new(30 * ONE, -40 * ONE);
    let rocket = make_plain_round(&cvars, &trig, Weapon::Rockets, m, veh_vel, owner);
    assert_eq!(rocket, round(Weapon::Rockets, m.origin, Vec2::new(30 * ONE, 560 * ONE), owner));
    let homing = make_plain_round(&cvars, &trig, Weapon::Hm, m, veh_vel, owner);
    assert_eq!(homing, round(Weapon::Hm, m.origin, Vec2::new(15 * ONE, 280 * ONE), owner));
    let bfg = make_plain_round(&cvars, &trig, Weapon::Bfg, m, veh_vel, owner);
    assert_eq!(bfg, round(Weapon::Bfg, m.origin, Vec2::new(0, 500 * ONE), owner));
}

#[test]
fn the_machine_gun_spreads_its_direction_by_the_deviate() {
    let trig = table(4);
    let mut cvars = cvars();
    cvars.g_machine_gun_angle_spread = (TAU + 3) / 4 + 1;
    let mut world = World::default();
    let owner = world.push((0u8,));
    let m = Muzzle { origin: Vec2::new(5, 6), angle: 0 };
    let straight = make_machine_gun_round(&cvars, &trig, m, Vec2::zero(), owner, 0);
    assert_eq!(straight.vel, Vec2::new(1_000 * ONE, 0));
    let one_sigma = make_machine_gun_round(&cvars, &trig, m, Vec2::zero(), owner, ONE);
    assert_eq!(one_sigma.vel, Vec2::new(0, 1_000 * ONE));
    // just short of a quarter turn the other way the angle falls into the last slot
    let other_side = make_machine_gun_round(&cvars, &trig, m, Vec2::zero(), owner, -(ONE - 1));
    assert_eq!(other_side.vel, Vec2::new(0, -1_000 * ONE));
    assert_eq!(one_sigma.pos, m.origin);
    assert_eq!(one_sigma.weapon, Weapon::Mg);
}

#[test]
fn machine_gun_deviates_are_used_up_from_the_back() {
    let trig = table(4);
    let map = open_map();
    let mut cvars = cvars();
    cvars.g_machine_gun_angle_spread = (TAU + 3) / 4 + 1;
    let mut world = World::default();
    let shooter = world.push((vehicle(Vec2::new(TILE, TILE), Weapon::Mg),));
    let mut gs = game(shooter);
    gs.input.fire = true;
    gs.normals = vec![-ONE, ONE];
    shooting(&cvars, &mut world, &mut gs, &map, &trig);
    assert_eq!(gs.normals, vec![-ONE]);
    assert_eq!(all_projectiles(&world)[0].1.vel, Vec2::new(0, 1_000 * ONE));
    assert_eq!(gs.take_normal(), -ONE);
    // where no deviate is left the shot has no spread
    assert_eq!(gs.take_normal(), 0);
    assert!(gs.normals.is_empty());
}

#[test]
fn a_railgun_leaves_a_trace_and_no_projectile() {
    let trig = table(4096);
    let map = walled_map(5);
    let cvars = cvars();
    let mut world = World::default();
    let shooter = world.push((vehicle(Vec2::new(96 * ONE, 96 * ONE), Weapon::Rail),));
    let mut gs = game(shooter);
    gs.input.fire = true;
    gs.railguns.push((Vec2::zero(), Vec2::zero()));

    shooting(&cvars, &mut world, &mut gs, &map, &trig);

    assert!(all_projectiles(&world).is_empty());
    assert_eq!(world.len(), 1);
    // the ray is cut into 3126 steps; the eighth sample is the first inside the wall
    assert_eq!(
        gs.railguns,
        vec![
            (Vec2::zero(), Vec2::zero()),
            (Vec2::new(96 * ONE, 96 * ONE), Vec2::new(351_918_106, 96 * ONE)),
        ]
    );
    assert_eq!(vehicle_of(&world, shooter).ammos[1], Ammo::Loaded(NOW + ONE / 10, 49));
    assert_eq!(RAIL_RANGE, 100_000 * ONE);
}

#[test]
fn a_railgun_that_meets_nothing_leaves_no_trace() {
    let trig = table(4096);
    // one row of tiles, longer than the railgun reaches
    let map = TileMap::new(vec![vec![false; 2_000]], TILE).unwrap();
    let cvars = cvars();
    let mut world = World::default();
    let shooter = world.push((vehicle(Vec2::new(96 * ONE, 32 * ONE), Weapon::Rail),));
    let mut gs = game(shooter);
    gs.input.fire = true;
    shooting(&cvars, &mut world, &mut gs, &map, &trig);
    assert!(gs.railguns.is_empty());
    assert!(all_projectiles(&world).is_empty());
    assert_eq!(vehicle_of(&world, shooter).ammos[1], Ammo::Loaded(NOW + ONE / 10, 49));
}

#[test]
fn a_cluster_bomb_scatters_its_bomblets() {
    let trig = table(4096);
    let map = open_map();
    let cvars = cvars();
    let mut world = World::default();
    let shooter = world.push((vehicle(Vec2::new(TILE, TILE), Weapon::Cb),));
    let mut gs = game(shooter);
    gs.input.fire = true;
    gs.normals = vec![ONE, 2 * ONE];

    shooting(&cvars, &mut world, &mut gs, &map, &trig);

    let bomblets = all_projectiles(&world);
    assert_eq!(bomblets.len(), 20);
    let mut expiries = Vec::new();
    let mut speeds = Vec::new();
    for (_, bomblet) in &bomblets {
        assert_eq!(bomblet.weapon, Weapon::Cb);
        assert_eq!(bomblet.owner, shooter);
        assert_eq!(bomblet.pos, Vec2::new(TILE, TILE));
        assert_eq!(bomblet.guidance, None);
        let expiry = bomblet.expiry.unwrap();
        assert!(NOW + ONE - ONE / 5 <= expiry && expiry <= NOW + ONE + ONE / 5);
        assert!(340 * ONE <= bomblet.vel.x && bomblet.vel.x < 460 * ONE);
        assert!(-45 * ONE <= bomblet.vel.y && bomblet.vel.y < 45 * ONE);
        expiries.push(expiry);
        speeds.push(bomblet.vel);
    }
    // each bomblet has a time and a speed of its own
    expiries.sort();
    expiries.dedup();
    assert!(expiries.len() > 10);
    speeds.sort_by_key(|v| (v.x, v.y));
    speeds.dedup();
    assert!(speeds.len() > 10);
    // the uniform scatter takes no normal deviates
    assert_eq!(gs.normals, vec![ONE, 2 * ONE]);
    assert_eq!(vehicle_of(&world, shooter).ammos[2], Ammo::Loaded(NOW + ONE / 10, 49));
}

#[test]
fn a_cluster_bomb_of_no_bomblets_spends_the_shot() {
    let trig = table(4096);
    let map = open_map();
    let mut cvars = cvars();
    cvars.g_cluster_bomb_count = 0;
    let mut world = World::default();
    let shooter = world.push((vehicle(Vec2::new(TILE, TILE), Weapon::Cb),));
    let mut gs = game(shooter);
    gs.input.fire = true;
    shooting(&cvars, &mut world, &mut gs, &map, &trig);
    assert!(all_projectiles(&world).is_empty());
    assert_eq!(vehicle_of(&world, shooter).ammos[2], Ammo::Loaded(NOW + ONE / 10, 49));
}

#[test]
fn gaussian_bomblets_take_their_speed_from_the_deviates() {
    let trig = table(4096);
    let mut cvars = cvars();
    cvars.g_cluster_bomb_speed_spread_gaussian = true;
    let mut world = World::default();
    let owner = world.push((0u8,));
    let mut gs = game(owner);
    gs.normals = vec![3 * ONE, -ONE, ONE / 2];
    let scatter = draw_scatter(&cvars, &mut gs);
    assert_eq!(scatter.forward, ONE / 2);
    assert_eq!(scatter.sideways, -ONE);
    assert!(-ONE <= scatter.time && scatter.time < ONE);
    assert_eq!(gs.normals, vec![3 * ONE]);

    let m = Muzzle { origin: Vec2::new(1, 2), angle: 0 };
    let bomblet = make_cluster_bomblet(&cvars, &trig, m, Vec2::zero(), owner, NOW, scatter);
    assert_eq!(bomblet.vel, Vec2::new(420 * ONE, -30 * ONE));
    assert_eq!(bomblet.weapon, Weapon::Cb);
    assert_eq!(bomblet.pos, m.origin);
    assert_eq!(bomblet.owner, owner);
}

#[test]
fn a_bomblet_expires_within_the_time_spread() {
    let trig = table(4096);
    let cvars = cvars();
    let mut world = World::default();
    let owner = world.push((0u8,));
    let m = Muzzle { origin: Vec2::zero(), angle: 0 };
    let at = |time: i64| {
        let s = Scatter { forward: 0, sideways: 0, time };
        make_cluster_bomblet(&cvars, &trig, m, Vec2::zero(), owner, NOW, s).expiry
    };
    assert_eq!(at(0), Some(NOW + ONE));
    assert_eq!(at(ONE / 2), Some(NOW + ONE + ONE / 10));
    assert_eq!(at(-ONE), Some(NOW + ONE - ONE / 5));
    assert_eq!(at(ONE - 1), Some(NOW + ONE + ONE / 5 - 1));
    assert_eq!(SCATTER_LIMIT, 3 * ONE / 2);
}

#[test]
fn uniform_scatter_stays_within_its_bounds() {
    let cvars = cvars();
    let mut world = World::default();
    let owner = world.push((0u8,));
    let mut gs = game(owner);
    gs.normals = vec![7];
    let mut seen = Vec::new();
    for _ in 0..200 {
        let s = draw_scatter(&cvars, &mut gs);
        assert!(-SCATTER_LIMIT <= s.forward && s.forward < SCATTER_LIMIT);
        assert!(-SCATTER_LIMIT <= s.sideways && s.sideways < SCATTER_LIMIT);
        assert!(-ONE <= s.time && s.time < ONE);
        seen.push(s.time);
    }
    seen.sort();
    seen.dedup();
    assert!(seen.len() > 100);
    assert_eq!(gs.normals, vec![7]);
    assert_eq!(gs.frame_time, NOW);
}

#[test]
fn only_the_player_launches_guided_missiles() {
    let trig = table(4096);
    let map = open_map();
    let cvars = cvars();
    let mut world = World::default();
    let player = world.push((vehicle(Vec2::new(TILE, TILE), Weapon::Gm),));
    let other = world.push((vehicle(Vec2::new(3 * TILE, TILE), Weapon::Gm),));
    let mut gs = game(player);
    gs.input.fire = true;

    shooting(&cvars, &mut world, &mut gs, &map, &trig);

    let missiles = all_projectiles(&world);
    assert_eq!(missiles.len(), 1);
    let (id, missile) = missiles[0];
    assert_eq!(missile.owner, player);
    assert_eq!(missile.weapon, Weapon::Gm);
    assert_eq!(gs.guided_missile, Some(id));
    // the other vehicle has lost nothing
    assert_eq!(vehicle_of(&world, other), vehicle(Vec2::new(3 * TILE, TILE), Weapon::Gm));
    assert_eq!(vehicle_of(&world, player).ammos[5], Ammo::Loaded(NOW + ONE / 10, 49));

    // with any other weapon the other vehicle fires as well
    let mut switched = vehicle_of(&world, other);
    switched.cur_weapon = Weapon::Rockets;
    *world.entry(other).unwrap().get_component_mut::<Vehicle>().unwrap() = switched;
    gs.frame_time = NOW + ONE;
    shooting(&cvars, &mut world, &mut gs, &map, &trig);
    let owners: Vec<(Weapon, Entity)> =
        all_projectiles(&world).iter().map(|(_, p)| (p.weapon, p.owner)).collect();
    assert_eq!(owners.len(), 3);
    assert!(owners.contains(&(Weapon::Rockets, other)));
    assert_eq!(owners.iter().filter(|(w, o)| *w == Weapon::Gm && *o == player).count(), 2);
    assert!(!owners.contains(&(Weapon::Gm, other)));
}

#[test]
fn a_vehicle_that_is_not_the_players_keeps_its_missile() {
    let trig = table(4096);
    let map = open_map();
    let cvars = cvars();
    let mut world = World::default();
    let player = world.push((0u8,));
    let other = world.push((1u8,));
    let mut armed = vehicle(Vec2::zero(), Weapon::Gm);
    armed.ammos[Weapon::Gm.index()] = Ammo::Loaded(NOW, 1);
    let mut gs = game(player);
    gs.input.fire = true;
    gs.guided_missile = Some(player);
    let mut pending = Vec::new();
    let mut v = armed;
    shoot(&cvars, &trig, &map, &mut gs, &mut v, other, &mut pending);
    assert_eq!(v, armed);
    assert!(pending.is_empty());
    assert_eq!(gs.guided_missile, Some(player));
    shoot(&cvars, &trig, &map, &mut gs, &mut v, player, &mut pending);
    assert_eq!(pending.len(), 1);
    assert_eq!(v.ammos[Weapon::Gm.index()], Ammo::Reloading(NOW, NOW + 2 * ONE));
}

#[test]
fn a_guided_missile_starts_heading_the_way_it_flies() {
    let trig = table(4);
    let mut cvars = cvars();
    cvars.g_guided_missile_vehicle_velocity_factor = ONE;
    let mut world = World::default();
    let owner = world.push((0u8,));
    let m = Muzzle { origin: Vec2::new(9, 9), angle: 0 };
    // the vehicle's sideways velocity outweighs the launch: the missile heads a quarter turn off
    let missile = make_guided_round(&cvars, &trig, m, Vec2::new(0, 1_000 * ONE), owner);
    assert_eq!(missile.vel, Vec2::new(360 * ONE, 1_000 * ONE));
    assert_eq!(
        missile.guidance,
        Some(Guidance { angle: (TAU + 3) / 4, turn_rate: 0, input: Input::empty() })
    );
    assert_eq!(missile.weapon, Weapon::Gm);
    assert_eq!(missile.expiry, None);
    let straight = make_guided_round(&cvars, &trig, m, Vec2::zero(), owner);
    assert_eq!(straight.guidance.unwrap().angle, 0);
}

#[test]
fn the_guided_missile_is_steered_by_its_own_controls() {
    let trig = table(4);
    let cvars = cvars();
    let mut world = World::default();
    let owner = world.push((vehicle(Vec2::zero(), Weapon::Gm),));
    let mut input = Input::empty();
    input.right = true;
    let mut missile = round(Weapon::Gm, Vec2::new(5, 5), Vec2::new(360 * ONE, 0), owner);
    missile.guidance = Some(Guidance { angle: TAU - ONE, turn_rate: 0, input });
    let missile_id = world.push((missile,));
    let rocket = round(Weapon::Rockets, Vec2::new(7, 7), Vec2::new(600 * ONE, 0), owner);
    let rocket_id = world.push((rocket,));
    let mut gs = game(owner);
    gs.dt = ONE / 2;
    gs.input.left = true;

    gm_turning(&cvars, &mut world, &gs, &trig);

    let steered = projectile_of(&world, missile_id);
    // steering adds 2 a second: a turn rate of 1, a turn of a half
    assert_eq!(
        steered.guidance,
        Some(Guidance { angle: TAU - ONE + ONE / 2, turn_rate: ONE, input })
    );
    assert_eq!(steered.vel, Vec2::new(360 * ONE, 0));
    assert_eq!(steered.pos, Vec2::new(5, 5));
    assert_eq!(projectile_of(&world, rocket_id), rocket);
    assert_eq!(vehicle_of(&world, owner), vehicle(Vec2::zero(), Weapon::Gm));

    // the heading wraps around
    gm_turning(&cvars, &mut world, &gs, &trig);
    let steered = projectile_of(&world, missile_id);
    assert_eq!(steered.guidance, Some(Guidance { angle: ONE / 2, turn_rate: 2 * ONE, input }));
}

#[test]
fn a_projectile_stops_where_the_map_blocks_it() {
    let map = walled_map(2);
    let cvars = cvars();
    let mut world = World::default();
    let owner = world.push((vehicle(Vec2::new(8 * TILE, 8 * TILE), Weapon::Rockets),));
    let start = Vec2::new(96 * ONE, 32 * ONE);
    let rocket = world.push((round(Weapon::Rockets, start, Vec2::new(128 * ONE, 0), owner),));
    let bfg = world.push((round(Weapon::Bfg, start, Vec2::new(128 * ONE, 0), owner),));
    let bullet = world.push((round(Weapon::Mg, start, Vec2::new(128 * ONE, 0), owner),));
    let slow = world.push((round(Weapon::Rockets, start, Vec2::new(25 * ONE, ONE), owner),));
    let mut gs = game(owner);

    projectiles(&cvars, &mut world, &mut gs, &map);

    // the way is cut into five steps; the second sample lies in the wall
    let wall = Vec2::new(147_200_000, 32 * ONE);
    assert!(!world.contains(rocket));
    assert!(!world.contains(bfg));
    assert!(!world.contains(bullet));
    assert_eq!(projectile_of(&world, slow).pos, Vec2::new(121 * ONE, 33 * ONE));
    assert_eq!(
        gs.explosions,
        vec![
            Explosion { pos: wall, scale: ONE, start_time: NOW, bfg: false },
            Explosion { pos: wall, scale: 2 * ONE, start_time: NOW, bfg: true },
        ]
    );
    assert!(!vehicle_of(&world, owner).destroyed);
    assert!(gs.bfg_beams.is_empty());
}

#[test]
fn bomblets_fly_on_whatever_lies_ahead() {
    let map = walled_map(2);
    let cvars = cvars();
    let mut world = World::default();
    let owner = world.push((vehicle(Vec2::new(8 * TILE, 8 * TILE), Weapon::Cb),));
    let victim = world.push((vehicle(Vec2::new(160 * ONE, 32 * ONE), Weapon::Mg),));
    let mut bomblet = round(Weapon::Cb, Vec2::new(96 * ONE, 32 * ONE), Vec2::new(128 * ONE, 0), owner);
    bomblet.expiry = Some(NOW + ONE);
    let id = world.push((bomblet,));
    let mut gs = game(owner);
    gs.dt = ONE / 2;
    projectiles(&cvars, &mut world, &mut gs, &map);
    // into the wall and right onto a vehicle, and nothing happens
    assert_eq!(projectile_of(&world, id).pos, Vec2::new(160 * ONE, 32 * ONE));
    assert!(gs.explosions.is_empty());
    assert!(!vehicle_of(&world, victim).destroyed);
}

#[test]
fn a_projectile_spares_its_owner() {
    let map = open_map();
    let cvars = cvars();
    // whichever of the two vehicles in reach stands first in the store, the nearer one is hit
    for nearer_first in [true, false] {
        let mut world = World::default();
        let at = Vec2::new(300 * ONE, 300 * ONE);
        let owner = world.push((vehicle(Vec2::new(301 * ONE, 300 * ONE), Weapon::Rockets),));
        let nearer_pos = Vec2::new(310 * ONE, 300 * ONE);
        let farther_pos = Vec2::new(300 * ONE, 315 * ONE);
        let (nearer, farther) = if nearer_first {
            let n = world.push((vehicle(nearer_pos, Weapon::Mg),));
            let f = world.push((vehicle(farther_pos, Weapon::Mg),));
            (n, f)
        } else {
            let f = world.push((vehicle(farther_pos, Weapon::Mg),));
            let n = world.push((vehicle(nearer_pos, Weapon::Mg),));
            (n, f)
        };
        let far = world.push((vehicle(Vec2::new(300 * ONE, 325 * ONE), Weapon::Mg),));
        let rocket = world
            .push((round(Weapon::Rockets, Vec2::new(250 * ONE, 300 * ONE), Vec2::new(50 * ONE, 0), owner),));
        let mut gs = game(owner);

        projectiles(&cvars, &mut world, &mut gs, &map);

        assert!(!world.contains(rocket));
        assert!(!vehicle_of(&world, owner).destroyed);
        assert!(!vehicle_of(&world, far).destroyed);
        assert!(vehicle_of(&world, nearer).destroyed);
        assert!(!vehicle_of(&world, farther).destroyed);
        // the vehicle's explosion comes before the projectile's
        assert_eq!(
            gs.explosions,
            vec![
                Explosion { pos: nearer_pos, scale: ONE, start_time: NOW, bfg: false },
                Explosion { pos: at, scale: ONE, start_time: NOW, bfg: false },
            ]
        );
        assert!(gs.bfg_beams.is_empty());
    }
}

#[test]
fn the_nearest_vehicle_in_reach_is_hit() {
    let map = open_map();
    let cvars = cvars();
    let mut world = World::default();
    let owner = world.push((0u8,));
    let first = world.push((1u8,));
    let second = world.push((2u8,));
    let third = world.push((3u8,));
    let fourth = world.push((4u8,));
    let at = Vec2::new(300 * ONE, 300 * ONE);
    let targets = vec![
        Target { id: third, pos: Vec2::new(300 * ONE, 300 * ONE + HIT_RADIUS + 1) },
        Target { id: owner, pos: at },
        Target { id: first, pos: Vec2::new(300 * ONE, 300 * ONE + HIT_RADIUS) },
        Target { id: second, pos: Vec2::new(300 * ONE - 7 * ONE, 300 * ONE) },
        Target { id: fourth, pos: Vec2::new(300 * ONE, 300 * ONE - 7 * ONE) },
    ];
    let rocket = round(Weapon::Rockets, Vec2::new(250 * ONE, 300 * ONE), Vec2::new(100 * ONE, 0), owner);
    let impact = fly(&cvars, &map, &targets, &rocket, ONE / 2, NOW);
    assert_eq!(impact.pos, at);
    assert_eq!(impact.removed_at, Some(at));
    // of two equally near vehicles the one that is listed first
    assert_eq!(impact.kills, vec![second]);
    assert_eq!(
        impact.blasts,
        vec![Explosion {
            pos: Vec2::new(300 * ONE - 7 * ONE, 300 * ONE),
            scale: ONE,
            start_time: NOW,
            bfg: false
        }]
    );
    assert!(impact.beams.is_empty());
    assert_eq!(HIT_RADIUS, 24 * ONE);

    // at the very edge of the reach a vehicle is still hit
    let impact = fly(&cvars, &map, &targets[..3].to_vec(), &rocket, ONE / 2, NOW);
    assert_eq!(impact.kills, vec![first]);
    assert_eq!(impact.removed_at, Some(at));

    // with nobody in reach the projectile flies on
    let impact = fly(&cvars, &map, &targets[..2].to_vec(), &rocket, ONE / 2, NOW);
    assert_eq!(impact.pos, at);
    assert_eq!(impact.removed_at, None);
    assert!(impact.kills.is_empty() && impact.blasts.is_empty());
}

#[test]
fn a_bfg_beams_at_the_vehicles_in_sight() {
    let map = walled_map(4);
    let cvars = cvars();
    let mut world = World::default();
    let at = Vec2::new(160 * ONE, 160 * ONE);
    let owner = world.push((vehicle(Vec2::new(160 * ONE, 165 * ONE), Weapon::Bfg),));
    let in_sight = world.push((vehicle(Vec2::new(160 * ONE, 260 * ONE), Weapon::Mg),));
    let behind_wall = world.push((vehicle(Vec2::new(360 * ONE, 160 * ONE), Weapon::Mg),));
    let out_of_range = world.push((vehicle(Vec2::new(160 * ONE, 381 * ONE), Weapon::Mg),));
    let mut wreck = vehicle(Vec2::new(161 * ONE, 160 * ONE), Weapon::Mg);
    wreck.destroyed = true;
    world.push((wreck,));
    let bfg = world.push((round(Weapon::Bfg, Vec2::new(110 * ONE, 160 * ONE), Vec2::new(50 * ONE, 0), owner),));
    let rocket =
        world.push((round(Weapon::Rockets, Vec2::new(110 * ONE, 160 * ONE), Vec2::new(50 * ONE, 0), owner),));
    let mut gs = game(owner);

    projectiles(&cvars, &mut world, &mut gs, &map);

    assert_eq!(projectile_of(&world, bfg).pos, at);
    assert_eq!(projectile_of(&world, rocket).pos, at);
    assert!(vehicle_of(&world, in_sight).destroyed);
    assert!(!vehicle_of(&world, behind_wall).destroyed);
    assert!(!vehicle_of(&world, out_of_range).destroyed);
    assert!(!vehicle_of(&world, owner).destroyed);
    assert_eq!(gs.bfg_beams, vec![(at, Vec2::new(160 * ONE, 260 * ONE))]);
    assert_eq!(
        gs.explosions,
        vec![Explosion { pos: Vec2::new(160 * ONE, 260 * ONE), scale: ONE, start_time: NOW, bfg: false }]
    );

    // a destroyed vehicle is no target the next time
    projectiles(&cvars, &mut world, &mut gs, &map);
    assert_eq!(gs.bfg_beams.len(), 1);
    assert_eq!(gs.explosions.len(), 1);
    assert_eq!(projectile_of(&world, bfg).pos, Vec2::new(210 * ONE, 160 * ONE));
}

#[test]
fn a_bfg_beams_beyond_its_direct_hit() {
    let map = open_map();
    let cvars = cvars();
    let mut world = World::default();
    let owner = world.push((0u8,));
    let a = world.push((1u8,));
    let b = world.push((2u8,));
    let c = world.push((3u8,));
    let d = world.push((4u8,));
    let e = world.push((5u8,));
    let at = Vec2::new(300 * ONE, 300 * ONE);
    let targets = vec![
        Target { id: a, pos: Vec2::new(400 * ONE, 300 * ONE) },
        Target { id: e, pos: Vec2::new(300 * ONE, 300 * ONE - HIT_RADIUS) },
        Target { id: b, pos: Vec2::new(300 * ONE, 310 * ONE) },
        Target { id: owner, pos: Vec2::new(300 * ONE, 301 * ONE) },
        Target { id: d, pos: Vec2::new(300 * ONE, 521 * ONE) },
        Target { id: c, pos: Vec2::new(200 * ONE, 300 * ONE) },
    ];
    let bfg = round(Weapon::Bfg, Vec2::new(250 * ONE, 300 * ONE), Vec2::new(50 * ONE, 0), owner);
    let impact = fly(&cvars, &map, &targets, &bfg, ONE, NOW);
    // the beams go to the vehicles in sight beyond the reach of a direct hit,
    // before and after the one that is hit
    assert_eq!(
        impact.beams,
        vec![(at, Vec2::new(400 * ONE, 300 * ONE)), (at, Vec2::new(200 * ONE, 300 * ONE))]
    );
    // the one that is hit first, then those at the end of a beam
    assert_eq!(impact.kills, vec![b, a, c]);
    assert_eq!(impact.removed_at, Some(at));
    // the one that is hit explodes once, and no vehicle within reach is beamed at
    assert_eq!(
        impact.blasts,
        vec![Explosion { pos: Vec2::new(300 * ONE, 310 * ONE), scale: ONE, start_time: NOW, bfg: false }]
    );
    assert_eq!(
        impact.beam_blasts,
        vec![
            Explosion { pos: Vec2::new(400 * ONE, 300 * ONE), scale: ONE, start_time: NOW, bfg: false },
            Explosion { pos: Vec2::new(200 * ONE, 300 * ONE), scale: ONE, start_time: NOW, bfg: false },
        ]
    );
    assert!(!impact.kills.contains(&owner) && !impact.kills.contains(&d) && !impact.kills.contains(&e));

    // a rocket on the same way sends no beam
    let rocket = round(Weapon::Rockets, Vec2::new(250 * ONE, 300 * ONE), Vec2::new(50 * ONE, 0), owner);
    let impact = fly(&cvars, &map, &targets, &rocket, ONE, NOW);
    assert!(impact.beams.is_empty() && impact.beam_blasts.is_empty());
    assert_eq!(impact.kills, vec![b]);
}

#[test]
fn a_vehicle_hit_by_a_bfg_explodes_once_under_the_projectile() {
    let map = open_map();
    let cvars = cvars();
    let mut world = World::default();
    let at = Vec2::new(300 * ONE, 300 * ONE);
    let hit_pos = Vec2::new(300 * ONE, 310 * ONE);
    let owner = world.push((vehicle(Vec2::new(600 * ONE, 600 * ONE), Weapon::Bfg),));
    let hit = world.push((vehicle(hit_pos, Weapon::Mg),));
    let bfg = world.push((round(Weapon::Bfg, Vec2::new(250 * ONE, 300 * ONE), Vec2::new(50 * ONE, 0), owner),));
    let mut gs = game(owner);
    gs.explosions.push(Explosion { pos: Vec2::zero(), scale: 1, start_time: 2, bfg: false });

    projectiles(&cvars, &mut world, &mut gs, &map);

    assert!(!world.contains(bfg));
    assert!(vehicle_of(&world, hit).destroyed);
    assert!(!vehicle_of(&world, owner).destroyed);
    assert!(gs.bfg_beams.is_empty());
    assert_eq!(
        gs.explosions[1..],
        [
            Explosion { pos: hit_pos, scale: ONE, start_time: NOW, bfg: false },
            Explosion { pos: at, scale: 2 * ONE, start_time: NOW, bfg: true },
        ]
    );
}

#[test]
fn a_direct_hit_of_a_bfg_leaves_the_beams_to_the_others() {
    let map = open_map();
    let cvars = cvars();
    for hit_first in [true, false] {
        let mut world = World::default();
        let at = Vec2::new(300 * ONE, 300 * ONE);
        let owner = world.push((vehicle(Vec2::new(600 * ONE, 600 * ONE), Weapon::Bfg),));
        let hit_pos = Vec2::new(300 * ONE, 310 * ONE);
        let seen_pos = Vec2::new(400 * ONE, 300 * ONE);
        let (hit, seen) = if hit_first {
            let h = world.push((vehicle(hit_pos, Weapon::Mg),));
            let s = world.push((vehicle(seen_pos, Weapon::Mg),));
            (h, s)
        } else {
            let s = world.push((vehicle(seen_pos, Weapon::Mg),));
            let h = world.push((vehicle(hit_pos, Weapon::Mg),));
            (h, s)
        };
        let bfg =
            world.push((round(Weapon::Bfg, Vec2::new(250 * ONE, 300 * ONE), Vec2::new(50 * ONE, 0), owner),));
        let mut gs = game(owner);

        projectiles(&cvars, &mut world, &mut gs, &map);

        assert!(!world.contains(bfg));
        assert!(vehicle_of(&world, hit).destroyed);
        assert!(vehicle_of(&world, seen).destroyed);
        assert!(!vehicle_of(&world, owner).destroyed);
        assert_eq!(gs.bfg_beams, vec![(at, seen_pos)]);
        // the vehicle that is hit explodes under the projectile's own
        // explosion, then the one at the end of the beam
        assert_eq!(
            gs.explosions,
            vec![
                Explosion { pos: hit_pos, scale: ONE, start_time: NOW, bfg: false },
                Explosion { pos: at, scale: 2 * ONE, start_time: NOW, bfg: true },
                Explosion { pos: seen_pos, scale: ONE, start_time: NOW, bfg: false },
            ]
        );
    }
}

#[test]
fn a_removed_guided_missile_is_followed_no_longer() {
    let map = walled_map(2);
    let cvars = cvars();
    let mut world = World::default();
    let owner = world.push((vehicle(Vec2::new(8 * TILE, 8 * TILE), Weapon::Gm),));
    let start = Vec2::new(96 * ONE, 32 * ONE);
    let missile = world.push((round(Weapon::Gm, start, Vec2::new(128 * ONE, 0), owner),));
    let mut gs = game(owner);
    gs.guided_missile = Some(missile);
    assert_eq!(gs.controlled(), PlayerEntity::GuidedMissile(missile));

    projectiles(&cvars, &mut world, &mut gs, &map);

    assert!(!world.contains(missile));
    assert_eq!(gs.guided_missile, None);
    assert_eq!(gs.controlled(), PlayerEntity::Tank(owner));
    assert_eq!(
        gs.explosions,
        vec![Explosion {
            pos: Vec2::new(147_200_000, 32 * ONE),
            scale: 3 * ONE / 2,
            start_time: NOW,
            bfg: false
        }]
    );
}

#[test]
fn another_missile_leaves_the_followed_one_alone() {
    let cvars = cvars();
    let mut world = World::default();
    let followed = world.push((0u8,));
    let other = world.push((1u8,));
    let mut gs = game(followed);
    gs.guided_missile = Some(followed);
    let mut to_remove = Vec::new();
    remove_projectile(&cvars, &mut gs, &mut to_remove, other, Weapon::Gm, Vec2::new(1, 2));
    assert_eq!(gs.guided_missile, Some(followed));
    assert_eq!(to_remove, vec![other]);
    // a machine gun's round leaves no explosion
    remove_projectile(&cvars, &mut gs, &mut to_remove, followed, Weapon::Mg, Vec2::new(3, 4));
    assert_eq!(gs.guided_missile, None);
    assert_eq!(to_remove, vec![other, followed]);
    assert_eq!(
        gs.explosions,
        vec![Explosion { pos: Vec2::new(1, 2), scale: 3 * ONE / 2, start_time: NOW, bfg: false }]
    );
    remove_projectile(&cvars, &mut gs, &mut to_remove, other, Weapon::Bfg, Vec2::new(5, 6));
    assert_eq!(gs.explosions[1], Explosion { pos: Vec2::new(5, 6), scale: 2 * ONE, start_time: NOW, bfg: true });
}

#[test]
fn timeout_twice_removes_once() {
    let cvars = cvars();
    let mut world = World::default();
    let owner = world.push((vehicle(Vec2::zero(), Weapon::Cb),));
    let mut late = round(Weapon::Cb, Vec2::new(11, 12), Vec2::new(5, 5), owner);
    late.expiry = Some(NOW - 1);
    let mut due = late;
    due.expiry = Some(NOW);
    let timeless = round(Weapon::Rockets, Vec2::new(13, 14), Vec2::zero(), owner);
    let late_id = world.push((late,));
    let due_id = world.push((due,));
    let timeless_id = world.push((timeless,));
    let mut gs = game(owner);

    projectiles_timeout(&cvars, &mut world, &mut gs);

    assert!(!world.contains(late_id));
    assert_eq!(projectile_of(&world, due_id), due);
    assert_eq!(projectile_of(&world, timeless_id), timeless);
    assert_eq!(vehicle_of(&world, owner), vehicle(Vec2::zero(), Weapon::Cb));
    let once = vec![Explosion { pos: Vec2::new(11, 12), scale: ONE, start_time: NOW, bfg: false }];
    assert_eq!(gs.explosions, once);

    projectiles_timeout(&cvars, &mut world, &mut gs);

    assert_eq!(gs.explosions, once);
    assert_eq!(world.len(), 3);
    assert_eq!(projectile_of(&world, due_id), due);

    // a moment later the next bomblet is due
    gs.frame_time = NOW + 1;
    projectiles_timeout(&cvars, &mut world, &mut gs);
    assert!(!world.contains(due_id));
    assert_eq!(gs.explosions.len(), 2);
    assert_eq!(gs.explosions[1].start_time, NOW + 1);
}

#[test]
fn an_expired_guided_missile_is_followed_no_longer() {
    let cvars = cvars();
    let mut world = World::default();
    let owner = world.push((0u8,));
    let mut missile = round(Weapon::Gm, Vec2::new(1, 1), Vec2::zero(), owner);
    missile.expiry = Some(0);
    let id = world.push((missile,));
    let mut gs = game(owner);
    gs.guided_missile = Some(id);
    projectiles_timeout(&cvars, &mut world, &mut gs);
    assert_eq!(gs.guided_missile, None);
    assert!(!world.contains(id));
}

#[test]
fn entities_on_the_list_leave_the_store() {
    let mut world = World::default();
    let a = world.push((vehicle(Vec2::zero(), Weapon::Mg),));
    let b = world.push((round(Weapon::Mg, Vec2::zero(), Vec2::zero(), a),));
    let c = world.push((round(Weapon::Rail, Vec2::zero(), Vec2::zero(), a),));
    remove_all(&mut world, &vec![b, a, b]);
    assert!(!world.contains(a));
    assert!(!world.contains(b));
    assert!(world.contains(c));
    assert_eq!(world.len(), 1);
    remove_all(&mut world, &Vec::new());
    assert_eq!(world.len(), 1);
}

#[test]
fn the_player_steers_the_missile_while_one_flies() {
    let mut world = World::default();
    let tank = world.push((0u8,));
    let missile = world.push((1u8,));
    let mut gs = game(tank);
    assert_eq!(gs.controlled(), PlayerEntity::Tank(tank));
    gs.guided_missile = Some(missile);
    assert_eq!(gs.controlled(), PlayerEntity::GuidedMissile(missile));
}

#[test]
fn one_tick_in_the_order_of_its_steps() {
    let trig = table(4096);
    let map = walled_map(5);
    let cvars = cvars();
    let mut world = World::default();
    let mut armed = vehicle(Vec2::new(96 * ONE, 96 * ONE), Weapon::Rockets);
    armed.vel = Vec2::new(10 * ONE, 0);
    let player = world.push((armed,));
    let prev = game(player);
    let mut gs = game(player);
    gs.dt = ONE / 10;
    gs.input.fire = true;

    self_destruct(&cvars, &mut world, &mut gs);
    vehicle_movement(&cvars, &mut world, &gs, &map, &trig);
    vehicle_logic(&cvars, &mut world, &mut gs, &prev);
    shooting(&cvars, &mut world, &mut gs, &map, &trig);
    gm_turning(&cvars, &mut world, &gs, &trig);
    projectiles(&cvars, &mut world, &mut gs, &map);
    projectiles_timeout(&cvars, &mut world, &mut gs);

    let v = vehicle_of(&world, player);
    assert_eq!(v.pos, Vec2::new(97 * ONE, 96 * ONE));
    let rockets = all_projectiles(&world);
    assert_eq!(rockets.len(), 1);
    // fired from where the vehicle has moved to, with its velocity on top, and flown a tenth of a second
    assert_eq!(rockets[0].1.vel, Vec2::new(610 * ONE, 0));
    assert_eq!(rockets[0].1.pos, Vec2::new(158 * ONE, 96 * ONE));
    assert!(gs.explosions.is_empty());

    // three more ticks take the rocket into the wall
    for _ in 0..3 {
        gs.frame_time += gs.dt;
        gs.input.fire = false;
        projectiles(&cvars, &mut world, &mut gs, &map);
    }
    assert!(all_projectiles(&world).is_empty());
    assert_eq!(gs.explosions.len(), 1);
    assert_eq!(gs.explosions[0].scale, ONE);
    assert!(gs.explosions[0].pos.x >= 5 * TILE && gs.explosions[0].pos.x < 6 * TILE);
    assert!(!vehicle_of(&world, player).destroyed);
}

#[test]
fn gaussian_bomblets_are_made_from_the_deviates_in_stock() {
    let trig = table(4096);
    let map = open_map();
    let mut cvars = cvars();
    cvars.g_cluster_bomb_speed_spread_gaussian = true;
    cvars.g_cluster_bomb_count = 2;
    cvars.g_machine_gun_angle_spread = (TAU + 3) / 4 + 1;
    let mut world = World::default();
    let gunner = world.push((vehicle(Vec2::new(TILE, TILE), Weapon::Mg),));
    let bomber = world.push((vehicle(Vec2::new(2 * TILE, TILE), Weapon::Cb),));
    let mut gs = game(gunner);
    gs.input.fire = true;
    gs.normals = vec![9 * ONE, -ONE, ONE / 2, 2 * ONE, ONE, 0, 3 * ONE];
    let order: Vec<Entity> = all_vehicles(&world).iter().map(|(id, _)| *id).collect();

    shooting(&cvars, &mut world, &mut gs, &map, &trig);

    let rounds = all_projectiles(&world);
    assert_eq!(rounds.len(), 3);
    // the vehicles take their deviates in the order of the store, from the back of the stock
    let (for_gun, for_bombs) = if order[0] == gunner {
        (3 * ONE, vec![(0, ONE), (2 * ONE, ONE / 2)])
    } else {
        (ONE / 2, vec![(3 * ONE, 0), (ONE, 2 * ONE)])
    };
    let bullet = make_machine_gun_round(
        &cvars,
        &trig,
        Muzzle { origin: Vec2::new(TILE, TILE), angle: 0 },
        Vec2::zero(),
        gunner,
        for_gun,
    );
    assert!(rounds.iter().any(|(_, r)| *r == bullet));
    let mut speeds: Vec<Vec2> =
        rounds.iter().filter(|(_, r)| r.weapon == Weapon::Cb).map(|(_, r)| r.vel).collect();
    let mut expected: Vec<Vec2> = for_bombs
        .iter()
        .map(|(forward, sideways)| {
            Vec2::new(400 * ONE + 40 * forward, 30 * sideways)
        })
        .collect();
    speeds.sort_by_key(|v| (v.x, v.y));
    expected.sort_by_key(|v| (v.x, v.y));
    assert_eq!(speeds, expected);
    assert_eq!(gs.normals, vec![9 * ONE, -ONE]);
}

#[test]
fn only_cluster_bombs_touch_the_random_source() {
    let trig = table(4096);
    let map = walled_map(5);
    let cvars = cvars();
    for weapon in [Weapon::Mg, Weapon::Rail, Weapon::Rockets, Weapon::Hm, Weapon::Gm, Weapon::Bfg] {
        let mut world = World::default();
        let shooter = world.push((vehicle(Vec2::new(96 * ONE, 96 * ONE), weapon),));
        let mut gs = game(shooter);
        gs.input.fire = true;
        let mut untouched = gs.rng.clone();
        shooting(&cvars, &mut world, &mut gs, &map, &trig);
        assert_eq!(vehicle_of(&world, shooter).ammos[weapon.index()], Ammo::Loaded(NOW + ONE / 10, 49));
        assert_eq!(gs.rng.gen::<u64>(), untouched.gen::<u64>());
    }
    let mut world = World::default();
    let shooter = world.push((vehicle(Vec2::new(96 * ONE, 96 * ONE), Weapon::Cb),));
    let mut gs = game(shooter);
    gs.input.fire = true;
    let mut untouched = gs.rng.clone();
    shooting(&cvars, &mut world, &mut gs, &map, &trig);
    assert_ne!(gs.rng.gen::<u64>(), untouched.gen::<u64>());
}

#[test]
fn the_store_lists_each_entity_once() {
    let mut world = World::default();
    assert!(list_vehicles(&world).is_empty() && list_projectiles(&world).is_empty());
    let first = world.push((vehicle(Vec2::new(ONE, 0), Weapon::Mg),));
    let second = world.push((vehicle(Vec2::new(2 * ONE, 0), Weapon::Rail),));
    let shot = world.push((round(Weapon::Rockets, Vec2::zero(), Vec2::zero(), first),));
    world.push((7u8,));

    let mut vehicles = list_vehicles(&world);
    assert_eq!(vehicles.len(), 2);
    assert!(vehicles.contains(&first) && vehicles.contains(&second));
    vehicles.dedup();
    assert_eq!(vehicles.len(), 2);
    assert_eq!(list_vehicles(&world), all_vehicles(&world).iter().map(|(id, _)| *id).collect::<Vec<_>>());
    assert_eq!(list_projectiles(&world), vec![shot]);

    world.remove(first);
    assert_eq!(list_vehicles(&world), vec![second]);
}

#[test]
fn a_tick_is_stocked_for_the_most_that_its_vehicles_can_fire() {
    let trig = table(4096);
    let map = walled_map(5);
    let mut cvars = cvars();
    let mut world = World::default();
    assert_eq!(deviates_for_tick(&cvars, &world), 0);
    let bomber = world.push((vehicle(Vec2::new(96 * ONE, 96 * ONE), Weapon::Cb),));
    world.push((vehicle(Vec2::new(96 * ONE, 160 * ONE), Weapon::Cb),));
    world.push((vehicle(Vec2::new(96 * ONE, 224 * ONE), Weapon::Mg),));
    world.push((round(Weapon::Rockets, Vec2::zero(), Vec2::zero(), bomber),));

    cvars.g_cluster_bomb_count = 5;
    cvars.g_cluster_bomb_speed_spread_gaussian = true;
    assert_eq!(deviates_for_tick(&cvars, &world), 30);
    // without normal scatter only the machine gun takes a deviate
    cvars.g_cluster_bomb_speed_spread_gaussian = false;
    assert_eq!(deviates_for_tick(&cvars, &world), 3);
    cvars.g_cluster_bomb_speed_spread_gaussian = true;
    cvars.g_cluster_bomb_count = 0;
    assert_eq!(deviates_for_tick(&cvars, &world), 3);

    // with that stock no shot goes without: two bombs and one round take 21 of 30
    cvars.g_cluster_bomb_count = 5;
    let stock = deviates_for_tick(&cvars, &world);
    let mut gs = game(bomber);
    gs.input.fire = true;
    gs.normals = (0..stock).map(|i| (i as i64 + 1) * 1_000).collect();
    shooting(&cvars, &mut world, &mut gs, &map, &trig);
    assert_eq!(gs.normals.len(), 9);
    assert_eq!(gs.normals, (0..9).map(|i| (i as i64 + 1) * 1_000).collect::<Vec<i64>>());
}

#[test]
fn rounds_enter_the_store_beside_what_it_holds() {
    let trig = table(4096);
    let map = walled_map(5);
    let cvars = cvars();
    let mut world = World::default();
    let first = world.push((vehicle(Vec2::new(96 * ONE, 96 * ONE), Weapon::Rockets),));
    let second = world.push((vehicle(Vec2::new(96 * ONE, 160 * ONE), Weapon::Bfg),));
    let old_round = round(Weapon::Hm, Vec2::new(ONE, 2 * ONE), Vec2::new(3 * ONE, 0), second);
    let old = world.push((old_round,));
    let mut gs = game(first);
    gs.input.fire = true;

    shooting(&cvars, &mut world, &mut gs, &map, &trig);

    // the vehicles are still there, and so is the projectile that was in flight
    assert_eq!(list_vehicles(&world).len(), 2);
    assert!(world.contains(first) && world.contains(second));
    assert_eq!(projectile_of(&world, old), old_round);
    // each vehicle's round has entered under an identifier of its own
    let rounds = all_projectiles(&world);
    assert_eq!(rounds.len(), 3);
    let new: Vec<&(Entity, Projectile)> = rounds.iter().filter(|(id, _)| *id != old).collect();
    assert_eq!(new.len(), 2);
    assert!(new[0].0 != new[1].0);
    assert!(new.iter().all(|(id, _)| *id != first && *id != second));
    assert!(new.iter().any(|(_, r)| r.owner == first && r.weapon == Weapon::Rockets));
    assert!(new.iter().any(|(_, r)| r.owner == second && r.weapon == Weapon::Bfg));
    assert_eq!(gs.guided_missile, None);
}
