use fleet_core::entities::{GameState, Obstacle, Position, Ship, Planet, DockingStatus, Player};
use fleet_core::catalog::GameMap;
use fleet_core::navigate::{heading_towards, candidate_is_safe, candidate_velocity, short_angle_around,
    long_angle_around, aim_heading, closest_point_to};
use fleet_core::trig::{cos_deg_fp, sin_deg_fp, asin_deg_fp};

const FP: i64 = 10_000;

fn free_ship(id: i32, owner: i32, x: i64, y: i64) -> Ship {
    Ship {
        id,
        owner_id: owner,
        position: Position(x, y),
        hp: 255,
        velocity_x: 0,
        velocity_y: 0,
        docking_status: DockingStatus::UNDOCKED,
        docked_planet: None,
        progress: 0,
        cooldown: 0,
        command: None,
    }
}

fn empty_map(my_id: i32, w_units: i64, h_units: i64, ships: Vec<Ship>) -> GameMap {
    GameMap::new(my_id, w_units * FP, h_units * FP, GameState {
        players: vec![Player { id: my_id, ships, strength: 0 }],
        planets: vec![],
    })
}

#[test]
fn trig_tables() {
    assert_eq!(cos_deg_fp(0), 10_000);
    assert_eq!(sin_deg_fp(0), 0);
    assert_eq!(sin_deg_fp(90), 10_000);
    assert_eq!(cos_deg_fp(90), 0);
    assert_eq!(cos_deg_fp(180), -10_000);
    assert_eq!(sin_deg_fp(270), -10_000);
    assert_eq!(cos_deg_fp(60), 5_000);
    assert_eq!(sin_deg_fp(30), 5_000);
    assert_eq!(asin_deg_fp(10_000), 90);
    assert_eq!(asin_deg_fp(5_000), 30);
    assert_eq!(asin_deg_fp(0), 0);
}

#[test]
fn heading_points_at_target() {
    assert_eq!(heading_towards(Position(0, 0), Position(10 * FP, 0)), 0);
    assert_eq!(heading_towards(Position(0, 0), Position(0, 10 * FP)), 90);
    assert_eq!(heading_towards(Position(0, 0), Position(-10 * FP, 0)), 180);
    assert_eq!(heading_towards(Position(0, 0), Position(0, -10 * FP)), 270);
    assert_eq!(heading_towards(Position(0, 0), Position(10 * FP, 10 * FP)), 45);
}

#[test]
fn clear_straight_run_keeps_heading_and_full_speed() {
    // one unit, a destination ten units due east, nothing in the way:
    // the desired trajectory is heading 0 at the full speed of 7
    let ship = free_ship(0, 0, 150 * FP, 150 * FP);
    let map = empty_map(0, 300, 300, vec![ship]);
    let dest = Position(160 * FP, 150 * FP);
    let r = ship.smart_navigate(&dest, &map, vec![]);
    assert_eq!(r, Some((7, 0)));
}

#[test]
fn short_destination_rounds_speed() {
    // three units away: the desired speed is the rounded distance
    let ship = free_ship(0, 0, 150 * FP, 150 * FP);
    let map = empty_map(0, 300, 300, vec![ship]);
    let dest = Position(153 * FP, 150 * FP);
    let r = ship.smart_navigate(&dest, &map, vec![]);
    assert_eq!(r, Some((3, 0)));
}

#[test]
fn navigator_result_is_collision_free() {
    // a pseudo-random obstacle field: whatever comes back, stepping
    // it forward violates no clearance
    let mut seed: i64 = 12345;
    let mut next = move || {
        seed = (seed * 1103515245 + 12345) % 2147483648;
        seed
    };
    for round in 0..5 {
        let ship = free_ship(0, 0, 150 * FP, 150 * FP);
        let map = empty_map(0, 300, 300, vec![ship]);
        let mut obstacles: Vec<Obstacle> = Vec::new();
        for _ in 0..(6 + round) {
            let ox = 130 * FP + (next() % (40 * FP));
            let oy = 130 * FP + (next() % (40 * FP));
            let vx = (next() % (4 * FP)) - 2 * FP;
            let vy = (next() % (4 * FP)) - 2 * FP;
            obstacles.push(Obstacle {
                position: Position(ox, oy),
                radius: FP / 2 + next() % (2 * FP),
                velocity_x: vx,
                velocity_y: vy,
            });
        }
        let dest = Position(170 * FP, 160 * FP);
        if let Some((speed, angle)) = ship.smart_navigate(&dest, &map, obstacles.clone()) {
            assert!((0..=7).contains(&speed));
            assert!((0..360).contains(&angle));
            // stepping the command forward must violate no clearance
            let safe = candidate_is_safe(300 * FP, 300 * FP, ship.position,
                speed as i64, angle as u16, &obstacles);
            assert!(safe, "unsafe candidate returned on round {round}");
        }
    }
}

#[test]
fn boxed_in_unit_gets_no_command() {
    // a small obstacle squarely on top of the unit: staying touches
    // it, and any thrust crosses its boundary, so nothing is safe
    let ship = free_ship(0, 0, 150 * FP, 150 * FP);
    let map = empty_map(0, 300, 300, vec![ship]);
    let obstacles = vec![Obstacle {
        position: Position(150 * FP, 150 * FP),
        radius: 4_000,
        velocity_x: 0,
        velocity_y: 0,
    }];
    let r = ship.smart_navigate(&Position(170 * FP, 150 * FP), &map, obstacles);
    assert_eq!(r, None);
}

#[test]
fn tangent_deflection_through_obstacle_centre_is_finite() {
    // the straight path runs exactly through the obstacle's centre:
    // the deflection still comes out as a finite whole-degree heading
    let start = Position(10 * FP, 10 * FP);
    let dest = Position(30 * FP, 10 * FP);
    let centre = Position(20 * FP, 10 * FP);
    let clearance = 25_005; // ship radius + margin + obstacle radius of two units
    let short = short_angle_around(start, dest, centre, clearance);
    let long = long_angle_around(start, dest, centre, clearance);
    assert!(short < 360);
    assert!(long < 360);
    // the tangent angle to a quarter-ratio clearance is fifteen whole
    // degrees, taken on the minus side on this exact tie
    assert_eq!(short, 345);
    assert_eq!(long, 15);
}

#[test]
fn unit_inside_obstacle_aims_straight_away() {
    // already inside the clearance circle: the aim is directly away
    // from the obstacle's centre, finite even from the exact centre
    let ob = Obstacle {
        position: Position(20 * FP, 10 * FP),
        radius: 5 * FP,
        velocity_x: 0,
        velocity_y: 0,
    };
    let h = aim_heading(Position(18 * FP, 10 * FP), Position(40 * FP, 10 * FP), &Some(ob));
    assert_eq!(h, 180);
    let h2 = aim_heading(Position(20 * FP, 10 * FP), Position(40 * FP, 10 * FP), &Some(ob));
    assert!(h2 < 360);
}

#[test]
fn closest_point_sits_off_the_surface() {
    let p = closest_point_to(Position(0, 0), Position(10 * FP, 0), 2 * FP, FP);
    // three units back from the centre towards the origin
    assert_eq!(p, Position(7 * FP, 0));
}

#[test]
fn candidate_velocity_matches_tables() {
    let (vx, vy) = candidate_velocity(7, 0);
    assert_eq!((vx, vy), (7 * FP, 0));
    let (vx, vy) = candidate_velocity(7, 90);
    assert_eq!((vx, vy), (0, 7 * FP));
    let (vx, vy) = candidate_velocity(0, 123);
    assert_eq!((vx, vy), (0, 0));
}
