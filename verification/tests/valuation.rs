use fleet_core::entities::{DockingStatus, GameState, Planet, Player, Position, Ship};
use fleet_core::catalog::GameMap;
use fleet_core::value::{total_strength, total_ship_strength, scaled_to_fp, val_mul_fp, val_add_fp,
    surf_between_fp, CommitmentLedger, nearest_ship, IDLE_SCORE};

const FP: i64 = 10_000;

fn ship(id: i32, owner: i32, x: i64, y: i64, hp: i32, status: DockingStatus) -> Ship {
    Ship {
        id,
        owner_id: owner,
        position: Position(x * FP, y * FP),
        hp,
        velocity_x: 0,
        velocity_y: 0,
        docking_status: status,
        docked_planet: None,
        progress: 0,
        cooldown: 0,
        command: None,
    }
}

#[test]
fn strength_of_one_full_ship() {
    // a single full-health ship weighs exactly one unit of strength
    assert_eq!(total_strength(&vec![255]), FP);
    // an empty group weighs nothing
    assert_eq!(total_strength(&vec![]), 0);
    // two full ships: the fraction sum doubles and the group factor
    // rises to 1.15
    assert_eq!(total_strength(&vec![255, 255]), 2 * 11_500);
}

#[test]
fn ship_strength_uses_hit_points() {
    let ships = vec![
        ship(0, 0, 10, 10, 255, DockingStatus::UNDOCKED),
        ship(1, 0, 20, 10, 127, DockingStatus::UNDOCKED),
    ];
    let hps = vec![255, 127];
    assert_eq!(total_ship_strength(&ships), total_strength(&hps));
}

#[test]
fn scaled_to_matches_known_points() {
    // moving sixty percent onto the three-quarter scale gives ninety
    assert_eq!(scaled_to_fp(7_500, 6_000), 9_000);
    assert_eq!(scaled_to_fp(2_500, 2_000), 4_000);
    assert_eq!(scaled_to_fp(5_000, 0), 5_000);
    assert_eq!(scaled_to_fp(5_000, FP), FP);
}

#[test]
fn fixed_point_products_saturate() {
    assert_eq!(val_mul_fp(2 * FP, 3 * FP), 6 * FP);
    assert_eq!(val_mul_fp(0, 5 * FP), 0);
    let cap = 1_000_000_000_000_000;
    assert_eq!(val_mul_fp(cap, cap), cap);
    assert_eq!(val_add_fp(cap, cap), cap);
}

#[test]
fn surface_distance_clamps_at_touch() {
    let a = Position(0, 0);
    let b = Position(10 * FP, 0);
    assert_eq!(surf_between_fp(a, FP, b, 2 * FP), 7 * FP);
    // overlapping entities are at distance zero, not negative
    assert_eq!(surf_between_fp(a, 6 * FP, b, 6 * FP), 0);
}

#[test]
fn ledger_accumulates_pledges() {
    let mut led = CommitmentLedger::new(3);
    assert_eq!(led.strength_at(1), 0);
    led.add(1, 255);
    assert_eq!(led.strength_at(1), FP);
    led.add(1, 255);
    assert_eq!(led.strength_at(1), 2 * 11_500);
    assert_eq!(led.strength_at(0), 0);
}

#[test]
fn nearest_ship_takes_first_minimum() {
    let ships = vec![
        ship(0, 0, 10, 10, 255, DockingStatus::DOCKED),
        ship(1, 0, 5, 5, 255, DockingStatus::DOCKED),
        ship(2, 0, 5, 5, 255, DockingStatus::DOCKED),
    ];
    assert_eq!(nearest_ship(&ships, Position(0, 0)), 1);
}

#[test]
fn valuation_is_idempotent() {
    // unchanged world and ledger: scoring twice gives the same score
    let me = ship(0, 0, 50, 50, 255, DockingStatus::UNDOCKED);
    let enemy = ship(10, 1, 100, 100, 200, DockingStatus::DOCKED);
    let map = GameMap::new(0, 300 * FP, 300 * FP, GameState {
        players: vec![
            Player { id: 0, ships: vec![me], strength: 0 },
            Player { id: 1, ships: vec![enemy], strength: 0 },
        ],
        planets: vec![Planet {
            id: 0,
            position: Position(150 * FP, 150 * FP),
            hp: 1000,
            radius: 5 * FP,
            num_docking_spots: 3,
            current_production: 0,
            remaining_resources: 100,
            owner: None,
            docked_ships: vec![],
            committed_ships: 0,
            doomed: false,
        }],
    });
    let committed: Vec<i32> = vec![255];
    let r1 = me.raid_value(&enemy, &map, &committed);
    let r2 = me.raid_value(&enemy, &map, &committed);
    assert_eq!(r1, r2);
    let i1 = me.intercept_value(&enemy, &committed);
    let i2 = me.intercept_value(&enemy, &committed);
    assert_eq!(i1, i2);
    let d1 = me.dock_value(&map.state.planets[0], &map);
    let d2 = me.dock_value(&map.state.planets[0], &map);
    assert_eq!(d1, d2);
}

#[test]
fn defense_without_docked_ships_is_idle() {
    let me = ship(0, 0, 50, 50, 255, DockingStatus::UNDOCKED);
    let enemy = ship(10, 1, 100, 100, 255, DockingStatus::UNDOCKED);
    let map = GameMap::new(0, 300 * FP, 300 * FP, GameState {
        players: vec![
            Player { id: 0, ships: vec![me], strength: 0 },
            Player { id: 1, ships: vec![enemy], strength: 0 },
        ],
        planets: vec![],
    });
    assert_eq!(me.defense_value(&enemy, &map, &vec![]), IDLE_SCORE);
}

#[test]
fn explosion_damage_falls_off() {
    let p = Planet {
        id: 0,
        position: Position(0, 0),
        hp: 1000,
        radius: 10 * FP,
        num_docking_spots: 3,
        current_production: 0,
        remaining_resources: 100,
        owner: None,
        docked_ships: vec![],
        committed_ships: 0,
        doomed: false,
    };
    // at the planet's surface the blast deals its full strength,
    // capped by the ship's health
    let close = ship(0, 0, 10, 0, 255, DockingStatus::UNDOCKED);
    assert_eq!(p.damage_from_explosion(&close), 255);
    let weak = ship(1, 0, 10, 0, 100, DockingStatus::UNDOCKED);
    assert_eq!(p.damage_from_explosion(&weak), 100);
    // nine units out of a ten-unit blast: 127 + 0.1 * (1275 - 127)
    let mid = ship(2, 0, 19, 0, 255, DockingStatus::UNDOCKED);
    assert_eq!(p.damage_from_explosion(&mid), 241);
    // outside the blast range nothing happens
    let far = ship(3, 0, 50, 0, 255, DockingStatus::UNDOCKED);
    assert_eq!(p.damage_from_explosion(&far), 0);
}

#[test]
fn commitment_weighting_is_clamped() {
    // a mountain of pledged strength weighs no more than the
    // disparity clamp: ten full ships' worth
    let me = ship(0, 0, 0, 0, 255, DockingStatus::UNDOCKED);
    let enemy = ship(10, 1, 10, 0, 255, DockingStatus::UNDOCKED);
    let huge: Vec<i32> = vec![255; 100];
    let huger: Vec<i32> = vec![255; 200];
    let v1 = me.intercept_value(&enemy, &huge);
    let v2 = me.intercept_value(&enemy, &huger);
    assert_eq!(v1, v2);
    // (clamp + 1) * nine units of surface * full-health discount
    assert_eq!(v1, 990_000);
}

#[test]
fn projected_damage_counts_split_fire() {
    // one enemy holding only this ship in range projects its whole
    // weapon damage onto it
    let me = ship(0, 0, 100, 100, 255, DockingStatus::UNDOCKED);
    let enemy = ship(10, 1, 103, 100, 255, DockingStatus::UNDOCKED);
    let map = GameMap::new(0, 300 * FP, 300 * FP, GameState {
        players: vec![
            Player { id: 0, ships: vec![me], strength: 0 },
            Player { id: 1, ships: vec![enemy], strength: 0 },
        ],
        planets: vec![],
    });
    assert_eq!(me.projected_damage_taken(&map), 64);
    // far out of range and closing on nobody: no damage projected
    let far = ship(1, 0, 250, 250, 255, DockingStatus::UNDOCKED);
    assert_eq!(far.projected_damage_taken(&map), 0);
}

#[test]
fn hp_fraction_scales() {
    let s = ship(0, 0, 10, 10, 255, DockingStatus::UNDOCKED);
    assert_eq!(s.hp_percent(), FP);
    let s2 = ship(0, 0, 10, 10, 0, DockingStatus::UNDOCKED);
    assert_eq!(s2.hp_percent(), 0);
}
