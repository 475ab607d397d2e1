use fleet_core::parse::{parse_u64_token, parse_fp_token, parse_i64_token, parse_game_state};
use fleet_core::entities::{Command, DockingStatus};
use fleet_core::game::{carry_histories, decode_id, decode_size, ShipHistory};
use fleet_core::parse::decode_docking_status;

const FP: i64 = 10_000;

#[test]
fn unsigned_tokens() {
    let v: Vec<u8> = b"  42 007".to_vec();
    let mut pos = 0usize;
    assert_eq!(parse_u64_token(&v, &mut pos), Some(42));
    assert_eq!(parse_u64_token(&v, &mut pos), Some(7));
    assert_eq!(parse_u64_token(&v, &mut pos), None);
}

#[test]
fn fixed_point_tokens() {
    let v: Vec<u8> = b"10.5 -3.25 7 0.123456 2.".to_vec();
    let mut pos = 0usize;
    assert_eq!(parse_fp_token(&v, &mut pos), Some(105_000));
    assert_eq!(parse_fp_token(&v, &mut pos), Some(-32_500));
    assert_eq!(parse_fp_token(&v, &mut pos), Some(7 * FP));
    // further fractional digits beyond four are consumed and dropped
    assert_eq!(parse_fp_token(&v, &mut pos), Some(1_234));
    // a decimal point with no digits after it is malformed
    assert_eq!(parse_fp_token(&v, &mut pos), None);
}

#[test]
fn signed_tokens() {
    let v: Vec<u8> = b"-12 34 x".to_vec();
    let mut pos = 0usize;
    assert_eq!(parse_i64_token(&v, &mut pos), Some(-12));
    assert_eq!(parse_i64_token(&v, &mut pos), Some(34));
    assert_eq!(parse_i64_token(&v, &mut pos), None);
}

fn tiny_snapshot() -> Vec<u8> {
    // two players; the first fields one free full-health ship at
    // (10, 20), the second none; one unowned planet at (100, 100)
    b"2 0 1 7 10.0 20.0 255 0.0 0.0 0 0 0 0 1 0 1 0 100.0 100.0 500 4.5 3 0 800 0 0 0".to_vec()
}

#[test]
fn snapshot_decodes() {
    let gs = parse_game_state(&tiny_snapshot()).expect("snapshot must decode");
    assert_eq!(gs.players.len(), 2);
    assert_eq!(gs.players[0].id, 0);
    assert_eq!(gs.players[0].ships.len(), 1);
    let s = &gs.players[0].ships[0];
    assert_eq!(s.id, 7);
    assert_eq!(s.position.0, 10 * FP);
    assert_eq!(s.position.1, 20 * FP);
    assert_eq!(s.hp, 255);
    assert_eq!(s.docking_status, DockingStatus::UNDOCKED);
    assert_eq!(gs.planets.len(), 1);
    let p = &gs.planets[0];
    assert_eq!(p.id, 0);
    assert_eq!(p.radius, 45_000);
    assert_eq!(p.num_docking_spots, 3);
    assert_eq!(p.owner, None);
    assert_eq!(p.committed_ships, 0);
}

#[test]
fn malformed_snapshots_decode_to_nothing() {
    assert!(parse_game_state(&b"".to_vec()).is_none());
    assert!(parse_game_state(&b"banana".to_vec()).is_none());
    // a ship with impossible health is rejected
    let bad = b"1 0 1 7 10.0 20.0 9999 0.0 0.0 0 0 0 0 0".to_vec();
    assert!(parse_game_state(&bad).is_none());
    // a planet with a single docking spot is outside the rules
    let bad2 = b"1 0 0 1 0 100.0 100.0 500 4.5 1 0 800 0 0 0".to_vec();
    assert!(parse_game_state(&bad2).is_none());
}

#[test]
fn histories_carry_forward() {
    let gs = parse_game_state(&tiny_snapshot()).unwrap();
    let prev = vec![ShipHistory {
        id: 7,
        positions: vec![fleet_core::entities::Position(5 * FP, 20 * FP)],
    }];
    let hs = carry_histories(&prev, &gs);
    assert_eq!(hs.len(), 1);
    assert_eq!(hs[0].id, 7);
    assert_eq!(hs[0].positions.len(), 2);
    assert_eq!(hs[0].positions[1], fleet_core::entities::Position(10 * FP, 20 * FP));
    // a brand-new ship starts a fresh history
    let hs2 = carry_histories(&Vec::new(), &gs);
    assert_eq!(hs2[0].positions.len(), 1);
}

#[test]
fn handshake_decoding() {
    assert_eq!(decode_id(&b"3\n".to_vec()), Some(3));
    assert_eq!(decode_id(&b"  15".to_vec()), Some(15));
    // past the player cap, or no token: nothing
    assert_eq!(decode_id(&b"16".to_vec()), None);
    assert_eq!(decode_id(&b"x".to_vec()), None);
    assert_eq!(decode_size(&b"240 160\n".to_vec()), Some((240, 160)));
    assert_eq!(decode_size(&b"0 160".to_vec()), None);
    assert_eq!(decode_size(&b"240 1001".to_vec()), None);
}

#[test]
fn docking_status_mapping() {
    assert_eq!(decode_docking_status(0), Some(DockingStatus::UNDOCKED));
    assert_eq!(decode_docking_status(1), Some(DockingStatus::DOCKING));
    assert_eq!(decode_docking_status(2), Some(DockingStatus::DOCKED));
    assert_eq!(decode_docking_status(3), Some(DockingStatus::UNDOCKING));
    assert_eq!(decode_docking_status(4), None);
    assert_eq!(decode_docking_status(-1), None);
}

#[test]
fn commands_encode_exactly() {
    assert_eq!(Command::Thrust(3, 7, 90).encode(), b"t 3 7 90 ".to_vec());
    assert_eq!(Command::Thrust(12, 0, 359).encode(), b"t 12 0 359 ".to_vec());
    assert_eq!(Command::Dock(3, 1).encode(), b"d 3 1 ".to_vec());
    assert_eq!(Command::Undock(40).encode(), b"u 40 ".to_vec());
    assert_eq!(Command::Stay.encode(), Vec::<u8>::new());
}
