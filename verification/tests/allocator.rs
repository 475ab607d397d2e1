use fleet_core::entities::{Command, DockingStatus, GameState, Planet, Player, Position, Ship};
use fleet_core::catalog::GameMap;
use fleet_core::alloc_turn::{run_turn, choose_configs, count_relevant_opponents, should_flee_check,
    Move, MoveType, Configs, ShipMoves, sort_moves_by_value};
use fleet_core::value::CommitmentLedger;
use fleet_core::game::TurnClock;

const FP: i64 = 10_000;

fn ship(id: i32, owner: i32, x: i64, y: i64, status: DockingStatus) -> Ship {
    Ship {
        id,
        owner_id: owner,
        position: Position(x * FP, y * FP),
        hp: 255,
        velocity_x: 0,
        velocity_y: 0,
        docking_status: status,
        docked_planet: None,
        progress: 0,
        cooldown: 0,
        command: None,
    }
}

fn planet(id: i32, x: i64, y: i64, r_fp: i64, spots: i32, owner: Option<i32>, docked: Vec<i32>) -> Planet {
    Planet {
        id,
        position: Position(x * FP, y * FP),
        hp: 1000,
        radius: r_fp,
        num_docking_spots: spots,
        current_production: 0,
        remaining_resources: 1000,
        owner,
        docked_ships: docked,
        committed_ships: 0,
        doomed: false,
    }
}

fn clock() -> TurnClock {
    TurnClock::begin(100_000, 100_000)
}

#[test]
fn every_unit_ends_with_one_command() {
    // a mixed fleet against a live opponent: the allocator terminates
    // with exactly one command per unit, in ship order
    let mine = vec![
        ship(0, 0, 50, 50, DockingStatus::UNDOCKED),
        ship(1, 0, 60, 50, DockingStatus::DOCKED),
        ship(2, 0, 70, 50, DockingStatus::DOCKING),
        ship(3, 0, 80, 50, DockingStatus::UNDOCKED),
    ];
    let theirs = vec![
        ship(10, 1, 150, 150, DockingStatus::UNDOCKED),
        ship(11, 1, 160, 150, DockingStatus::DOCKED),
    ];
    let planets = vec![
        planet(0, 100, 100, 5 * FP, 4, None, vec![]),
        planet(1, 200, 200, 6 * FP, 3, Some(1), vec![11]),
    ];
    let mut map = GameMap::new(0, 300 * FP, 300 * FP, GameState {
        players: vec![
            Player { id: 0, ships: mine, strength: 0 },
            Player { id: 1, ships: theirs, strength: 0 },
        ],
        planets,
    });
    let cmds = run_turn(&mut map, &choose_configs(1), 1, false, &clock());
    assert_eq!(cmds.len(), 4);
    // identities line up with the fleet
    let ids = [0, 1, 2, 3];
    for (k, c) in cmds.iter().enumerate() {
        match c {
            Command::Thrust(id, sp, an) => {
                assert_eq!(*id, ids[k]);
                assert!((0..=7).contains(sp));
                assert!((0..360).contains(an));
            }
            Command::Dock(id, _) => assert_eq!(*id, ids[k]),
            Command::Undock(id) => assert_eq!(*id, ids[k]),
            Command::Stay => {}
        }
    }
    // capacity invariant holds afterwards
    for p in map.state.planets.iter() {
        assert!(p.committed_ships as usize + p.docked_ships.len() <= p.num_docking_spots as usize);
    }
}

#[test]
fn unit_in_dock_range_docks_and_fills_the_ledger() {
    // one unit right beside an open planet: the allocator emits a
    // dock and records the pledge
    let mine = vec![ship(0, 0, 96, 100, DockingStatus::UNDOCKED)];
    let planets = vec![planet(0, 100, 100, FP, 2, None, vec![])];
    let mut map = GameMap::new(0, 300 * FP, 300 * FP, GameState {
        players: vec![Player { id: 0, ships: mine, strength: 0 }],
        planets,
    });
    let cmds = run_turn(&mut map, &choose_configs(0), 0, false, &clock());
    assert_eq!(cmds.len(), 1);
    assert_eq!(cmds[0], Command::Dock(0, 0));
    assert_eq!(map.state.planets[0].committed_ships, 1);
}

#[test]
fn distant_unit_routes_towards_the_planet() {
    // the scenario's opening: far from the planet, the unit thrusts
    // at full speed straight at it
    let mine = vec![ship(0, 0, 100, 150, DockingStatus::UNDOCKED)];
    let planets = vec![planet(0, 200, 150, FP, 2, None, vec![])];
    let mut map = GameMap::new(0, 300 * FP, 300 * FP, GameState {
        players: vec![Player { id: 0, ships: mine, strength: 0 }],
        planets,
    });
    let cmds = run_turn(&mut map, &choose_configs(0), 0, false, &clock());
    assert_eq!(cmds.len(), 1);
    match cmds[0] {
        Command::Thrust(0, sp, an) => {
            assert_eq!(sp, 7);
            assert_eq!(an, 0);
        }
        ref other => panic!("expected a thrust, got {:?}", other),
    }
    // routing towards the planet pledges its slot for this turn
    assert_eq!(map.state.planets[0].committed_ships, 1);
}

#[test]
fn two_units_one_slot_commits_exactly_one() {
    // two units converge on a planet with a single open slot: exactly
    // one may pledge it, the other falls through
    let mine = vec![
        ship(0, 0, 96, 100, DockingStatus::UNDOCKED),
        ship(1, 0, 104, 100, DockingStatus::UNDOCKED),
        ship(9, 0, 100, 104, DockingStatus::DOCKED),
    ];
    // one of two spots already taken by the docked ship
    let planets = vec![planet(0, 100, 100, FP, 2, Some(0), vec![9])];
    let mut map = GameMap::new(0, 300 * FP, 300 * FP, GameState {
        players: vec![Player { id: 0, ships: mine, strength: 0 }],
        planets,
    });
    let cmds = run_turn(&mut map, &choose_configs(0), 0, false, &clock());
    assert_eq!(cmds.len(), 3);
    let docks = cmds.iter().filter(|c| matches!(c, Command::Dock(_, _))).count();
    assert_eq!(docks, 1, "exactly one unit may take the last slot");
    // the loser had nothing else to do and stays
    let stays = cmds.iter().filter(|c| matches!(c, Command::Stay)).count();
    assert!(stays >= 1);
    // capacity invariant: one pledge plus one docked within two spots
    let p = &map.state.planets[0];
    assert_eq!(p.committed_ships, 1);
    assert!(p.committed_ships as usize + p.docked_ships.len() <= p.num_docking_spots as usize);
}

#[test]
fn saturated_world_still_terminates() {
    // every planet full, an enemy fleet hovering: the allocator must
    // still finish with a command for everyone
    let mine = vec![
        ship(0, 0, 50, 50, DockingStatus::UNDOCKED),
        ship(1, 0, 55, 50, DockingStatus::UNDOCKED),
    ];
    let theirs = vec![ship(10, 1, 250, 250, DockingStatus::UNDOCKED)];
    let planets = vec![planet(0, 100, 100, 5 * FP, 2, Some(1), vec![20, 21])];
    let mut map = GameMap::new(0, 300 * FP, 300 * FP, GameState {
        players: vec![
            Player { id: 0, ships: mine, strength: 0 },
            Player { id: 1, ships: theirs, strength: 0 },
        ],
        planets,
    });
    let cmds = run_turn(&mut map, &choose_configs(1), 1, false, &clock());
    assert_eq!(cmds.len(), 2);
    for p in map.state.planets.iter() {
        assert!(p.committed_ships as usize + p.docked_ships.len() <= p.num_docking_spots as usize);
    }
}

#[test]
fn fleeing_fleet_casts_off_and_runs() {
    // under a flee order, a docked unit undocks and a free unit
    // thrusts for an edge
    let mine = vec![
        ship(0, 0, 150, 150, DockingStatus::UNDOCKED),
        ship(1, 0, 100, 100, DockingStatus::DOCKED),
    ];
    let theirs: Vec<_> = (0..5).map(|i| ship(10 + i, 1, 250, 200 + i as i64, DockingStatus::UNDOCKED)).collect();
    let third = vec![ship(30, 2, 20, 20, DockingStatus::UNDOCKED)];
    let planets = vec![planet(0, 100, 100, 5 * FP, 2, Some(0), vec![1])];
    let mut map = GameMap::new(0, 300 * FP, 300 * FP, GameState {
        players: vec![
            Player { id: 0, ships: mine, strength: 0 },
            Player { id: 1, ships: theirs, strength: 0 },
            Player { id: 2, ships: third, strength: 0 },
        ],
        planets,
    });
    assert!(should_flee_check(&map));
    let cmds = run_turn(&mut map, &choose_configs(2), 2, true, &clock());
    assert_eq!(cmds.len(), 2);
    assert_eq!(cmds[1], Command::Undock(1));
    assert!(matches!(cmds[0], Command::Thrust(0, _, _)));
}

#[test]
fn ship_moves_retire_and_recombine() {
    let me = ship(0, 0, 50, 50, DockingStatus::UNDOCKED);
    let enemy_docked = ship(10, 1, 200, 200, DockingStatus::DOCKED);
    let enemy_free = ship(11, 1, 220, 220, DockingStatus::UNDOCKED);
    let planets = vec![planet(0, 100, 100, 5 * FP, 3, None, vec![])];
    let map = GameMap::new(0, 300 * FP, 300 * FP, GameState {
        players: vec![
            Player { id: 0, ships: vec![me], strength: 0 },
            Player { id: 1, ships: vec![enemy_docked, enemy_free], strength: 0 },
        ],
        planets,
    });
    let enemies = map.enemy_ships();
    let ledger = CommitmentLedger::new(enemies.len());
    let configs = choose_configs(1);
    // one dock target, one raid target, one defend and one intercept
    // target: four candidates in all
    let mut sm = ShipMoves::new(me, 0, &map, &vec![0], &vec![0], &vec![1],
        &enemies, &ledger, &configs);
    assert_eq!(sm.remaining_moves(), 4);
    let first = *sm.best_move();
    sm.update_best_move();
    assert_eq!(sm.remaining_moves(), 3);
    let second = *sm.best_move();
    assert!(first.value() <= second.value());
    sm.recombine_deqs();
    assert_eq!(sm.remaining_moves(), 4);
    sm.recalculate_all_moves(&map, &ledger, &configs, &enemies);
    sm.sort_moves();
    sm.refresh_best_move();
    assert_eq!(sm.best_move().value(), first.value());
}

#[test]
fn eradicate_hunts_the_named_player() {
    let mine = vec![ship(0, 0, 150, 150, DockingStatus::UNDOCKED)];
    let hunted = vec![ship(10, 1, 170, 150, DockingStatus::UNDOCKED)];
    let bystander = vec![ship(20, 2, 150, 170, DockingStatus::UNDOCKED)];
    let map = GameMap::new(0, 300 * FP, 300 * FP, GameState {
        players: vec![
            Player { id: 0, ships: mine.clone(), strength: 0 },
            Player { id: 1, ships: hunted, strength: 0 },
            Player { id: 2, ships: bystander, strength: 0 },
        ],
        planets: vec![planet(0, 50, 50, 5 * FP, 2, None, vec![])],
    });
    // the hunted player's ships are not in the eradication catalog,
    // the bystander's are, at their danger radius
    let obs = map.obstacles_for_eradicate(&mine[0], 1);
    assert_eq!(obs.len(), 2); // the planet and the bystander
    assert_eq!(obs[1].radius, 5 * FP); // a free bystander's weapon range
    let cmd = fleet_core::alloc_turn::eradicate(&mine[0], &map, 1);
    match cmd {
        Some(Command::Thrust(0, sp, an)) => {
            assert_eq!(sp, 7);
            assert_eq!(an, 0);
        }
        ref other => panic!("expected a thrust, got {:?}", other),
    }
    // nobody of that player left: nothing to do
    assert_eq!(fleet_core::alloc_turn::eradicate(&mine[0], &map, 9), None);
}

#[test]
fn pressed_raid_narrows_defenders_to_their_hulls() {
    let me = ship(0, 0, 150, 150, DockingStatus::UNDOCKED);
    let target = ship(10, 1, 200, 150, DockingStatus::DOCKED);
    // within one turn's travel of the target: a defender
    let defender = ship(11, 1, 203, 150, DockingStatus::UNDOCKED);
    // far away: no defender
    let loiterer = ship(12, 1, 250, 250, DockingStatus::UNDOCKED);
    let map = GameMap::new(0, 300 * FP, 300 * FP, GameState {
        players: vec![
            Player { id: 0, ships: vec![me], strength: 0 },
            Player { id: 1, ships: vec![target, defender, loiterer], strength: 0 },
        ],
        planets: vec![planet(0, 50, 50, 5 * FP, 2, None, vec![])],
    });
    let obs = map.obstacles_for_raid_ignore_defenders(&me, &target);
    // the planet, the docked target, the defender at its hull, the
    // loiterer at its weapon range
    assert_eq!(obs.len(), 4);
    assert_eq!(obs[2].radius, FP / 2);
    assert_eq!(obs[3].radius, 5 * FP);
}

#[test]
fn dock_realization_commits_or_rejects() {
    // in range with a free slot: the realization is a dock and the
    // pledge rises; with the capacity spoken for it is nothing, and
    // the world is untouched
    let me = ship(0, 0, 96, 100, DockingStatus::UNDOCKED);
    let mut map = GameMap::new(0, 300 * FP, 300 * FP, GameState {
        players: vec![Player { id: 0, ships: vec![me], strength: 0 }],
        planets: vec![planet(0, 100, 100, FP, 2, None, vec![])],
    });
    let enemies: Vec<Ship> = Vec::new();
    let no_idx: Vec<usize> = Vec::new();
    let docked: Vec<Ship> = Vec::new();
    let mut ledger = CommitmentLedger::new(0);
    let r = fleet_core::alloc_turn::try_move(
        fleet_core::alloc_turn::Move::DockMove(0, 0), me, &mut map,
        &enemies, &no_idx, &docked, 0, &mut ledger);
    assert_eq!(r, Some(Command::Dock(0, 0)));
    assert_eq!(map.state.planets[0].committed_ships, 1);

    // both spots now spoken for: the next docker is turned away
    map.state.planets[0].committed_ships = 1;
    map.state.planets[0].docked_ships = vec![9];
    let r2 = fleet_core::alloc_turn::try_move(
        fleet_core::alloc_turn::Move::DockMove(0, 0), me, &mut map,
        &enemies, &no_idx, &docked, 0, &mut ledger);
    assert_eq!(r2, None);
    assert_eq!(map.state.planets[0].committed_ships, 1);
}

#[test]
fn defend_with_nothing_docked_holds() {
    let me = ship(0, 0, 50, 50, DockingStatus::UNDOCKED);
    let enemy = ship(10, 1, 100, 100, DockingStatus::UNDOCKED);
    let mut map = GameMap::new(0, 300 * FP, 300 * FP, GameState {
        players: vec![
            Player { id: 0, ships: vec![me], strength: 0 },
            Player { id: 1, ships: vec![enemy], strength: 0 },
        ],
        planets: vec![planet(0, 200, 200, 5 * FP, 2, None, vec![])],
    });
    let enemies = map.enemy_ships();
    let undocked_idx = vec![0usize];
    let docked: Vec<Ship> = Vec::new();
    let mut ledger = CommitmentLedger::new(1);
    let r = fleet_core::alloc_turn::try_move(
        fleet_core::alloc_turn::Move::DefendMove(0, 0), me, &mut map,
        &enemies, &undocked_idx, &docked, 0, &mut ledger);
    assert_eq!(r, Some(Command::Stay));
    assert_eq!(ledger.strength_at(0), 0);
}

#[test]
fn successful_raid_pledges_the_ledger() {
    let me = ship(0, 0, 50, 50, DockingStatus::UNDOCKED);
    let target = ship(10, 1, 200, 200, DockingStatus::DOCKED);
    let mut map = GameMap::new(0, 300 * FP, 300 * FP, GameState {
        players: vec![
            Player { id: 0, ships: vec![me], strength: 0 },
            Player { id: 1, ships: vec![target], strength: 0 },
        ],
        planets: vec![planet(0, 100, 250, 5 * FP, 2, None, vec![])],
    });
    let enemies = map.enemy_ships();
    let no_idx: Vec<usize> = Vec::new();
    let docked: Vec<Ship> = Vec::new();
    let mut ledger = CommitmentLedger::new(1);
    let r = fleet_core::alloc_turn::try_move(
        fleet_core::alloc_turn::Move::RaidMove(0, 0), me, &mut map,
        &enemies, &no_idx, &docked, 0, &mut ledger);
    assert!(matches!(r, Some(Command::Thrust(0, _, _))));
    // the unit's full strength now stands against the target
    assert_eq!(ledger.strength_at(0), FP);
}

#[test]
fn config_regimes() {
    let few = choose_configs(1);
    assert_eq!(few.dock_preference, 5_000);
    assert_eq!(few.intercept_preference, 28_000);
    let many = choose_configs(2);
    assert_eq!(many.dock_preference, 3_500);
    assert_eq!(many.intercept_preference, 98_000);
}

#[test]
fn opponent_counting_and_flee_trigger() {
    let mine: Vec<Ship> = vec![ship(0, 0, 50, 50, DockingStatus::UNDOCKED)];
    let big: Vec<Ship> = (0..3).map(|i| ship(10 + i, 1, 200, 200 + i as i64, DockingStatus::UNDOCKED)).collect();
    let small: Vec<Ship> = vec![ship(20, 2, 250, 250, DockingStatus::UNDOCKED)];
    let map = GameMap::new(0, 300 * FP, 300 * FP, GameState {
        players: vec![
            Player { id: 0, ships: mine, strength: 0 },
            Player { id: 1, ships: big, strength: 0 },
            Player { id: 2, ships: small, strength: 0 },
        ],
        planets: vec![planet(0, 100, 100, 5 * FP, 2, None, vec![])],
    });
    assert_eq!(count_relevant_opponents(&map), 2);
    // three players and a fleet three times this one: run
    assert!(should_flee_check(&map));
}

#[test]
fn sorting_moves_orders_by_score() {
    let moves = vec![
        Move::DockMove(0, 500),
        Move::DockMove(1, 100),
        Move::DockMove(2, 300),
        Move::DockMove(3, 100),
    ];
    let sorted = sort_moves_by_value(&moves);
    let values: Vec<i64> = sorted.iter().map(|m| m.value()).collect();
    assert_eq!(values, vec![100, 100, 300, 500]);
    assert_eq!(sorted.len(), 4);
    assert_eq!(sorted[3], Move::DockMove(0, 500));
}

#[test]
fn move_accessors() {
    let m = Move::RaidMove(4, 1234);
    assert_eq!(m.value(), 1234);
    assert_eq!(m.target_index(), 4);
    assert_eq!(m.move_type(), MoveType::RaidMove);
    let c = Configs { dock_preference: 1, raid_preference: 2, defend_preference: 3, intercept_preference: 4 };
    assert_eq!(c.dock_preference, 1);
}
