//! Verified decoding of the turn protocol's text lines.
//!
//! Lines are handled as bytes.  The numeric primitives carry exact
//! value contracts: an unsigned decimal run decodes to its value, and
//! a decimal-point number decodes to its fixed-point value on the
//! `FP_ONE` scale.  The composite decoders validate every field hard
//! enough that whatever they hand back is a well-formed snapshot; a
//! malformed line decodes to nothing.

use vstd::prelude::*;
use crate::consts::{FP_ONE, MAX_SHIP_HEALTH};
use crate::entities::{DockingStatus, GameState, Planet, Player, Position, Ship};

verus! {

/// Protocol whitespace.
pub open spec fn is_ws(b: u8) -> bool {
    b == 32 || b == 9 || b == 10 || b == 13
}

/// An ASCII decimal digit.
pub open spec fn is_digit(b: u8) -> bool {
    48 <= b <= 57
}

/// The value of a decimal digit run, most significant first.
pub open spec fn dec_val(s: Seq<u8>) -> int
    decreases s.len(),
{
    if s.len() == 0 {
        0
    } else {
        dec_val(s.drop_last()) * 10 + (s.last() - 48)
    }
}

/// Advances past whitespace.
pub fn skip_ws(v: &Vec<u8>, pos: &mut usize)
    requires
        *old(pos) <= v@.len(),
    ensures
        *old(pos) <= *final(pos) <= v@.len(),
        *final(pos) == v@.len() || !is_ws(v@[*final(pos) as int]),
{
    while *pos < v.len()
        invariant
            *pos <= v@.len(),
            *old(pos) <= *pos,
        decreases v@.len() - *pos,
    {
        let b = v[*pos];
        if b == 32 || b == 9 || b == 10 || b == 13 {
            *pos = *pos + 1;
        } else {
            return;
        }
    }
}

/// Decodes an unsigned decimal run at the cursor, skipping leading
/// whitespace first: exactly the value of the digits consumed.
/// Nothing is consumed and nothing returned when no digit is there or
/// the value overflows the cap.
pub fn parse_u64_token(v: &Vec<u8>, pos: &mut usize) -> (r: Option<u64>)
    requires
        *old(pos) <= v@.len(),
    ensures
        *old(pos) <= *final(pos) <= v@.len(),
        r matches Some(n) ==> exists|s: int|
            *old(pos) <= s <= *final(pos)
            && (forall|k: int| s <= k < *final(pos) ==> is_digit(#[trigger] v@[k]))
            && s < *final(pos)
            && n == dec_val(v@.subrange(s, *final(pos) as int))
            && n <= 1_000_000_000_000_000,
    {
    skip_ws(v, pos);
    let ghost start = *pos;
    let mut n: u64 = 0;
    let mut any: bool = false;
    while *pos < v.len() && v[*pos] >= 48 && v[*pos] <= 57
        invariant
            start <= *pos <= v@.len(),
            forall|k: int| start <= k < *pos ==> is_digit(#[trigger] v@[k]),
            n == dec_val(v@.subrange(start as int, *pos as int)),
            any <==> *pos > start,
            n <= 9_999_999_999_999_999,
        decreases v@.len() - *pos,
    {
        let d = v[*pos] - 48;
        if n > 999_999_999_999_999 {
            return None;
        }
        proof {
            assert(v@.subrange(start as int, *pos as int + 1).drop_last()
                =~= v@.subrange(start as int, *pos as int));
            assert(v@.subrange(start as int, *pos as int + 1).last() == v@[*pos as int]);
        }
        n = n * 10 + d as u64;
        any = true;
        *pos = *pos + 1;
    }
    if !any {
        return None;
    }
    if n > 1_000_000_000_000_000 {
        return None;
    }
    Some(n)
}

/// Decodes a signed decimal-point number into fixed point on the
/// `FP_ONE` scale: sign, whole part, and up to four fractional digits
/// (further fractional digits are consumed and ignored).
pub fn parse_fp_token(v: &Vec<u8>, pos: &mut usize) -> (r: Option<i64>)
    requires
        *old(pos) <= v@.len(),
    ensures
        *old(pos) <= *final(pos) <= v@.len(),
        r matches Some(x) ==> -200_000_000_000_000 <= x <= 200_000_000_000_000,
{
    skip_ws(v, pos);
    let mut neg: bool = false;
    if *pos < v.len() && v[*pos] == 45 {
        neg = true;
        *pos = *pos + 1;
    }
    let whole = match parse_u64_token(v, pos) {
        Some(n) => n,
        None => {
            return None;
        }
    };
    if whole > 10_000_000_000 {
        return None;
    }
    let mut frac: i64 = 0;
    if *pos < v.len() && v[*pos] == 46 {
        *pos = *pos + 1;
        let mut seen: u32 = 0;
        let mut any: bool = false;
        while *pos < v.len() && v[*pos] >= 48 && v[*pos] <= 57
            invariant
                *old(pos) <= *pos <= v@.len(),
                seen <= 4,
                0 <= frac,
                seen == 0 ==> frac == 0,
                seen == 1 ==> frac < 10,
                seen == 2 ==> frac < 100,
                seen == 3 ==> frac < 1_000,
                seen == 4 ==> frac < 10_000,
            decreases v@.len() - *pos,
        {
            let d = (v[*pos] - 48) as i64;
            if seen < 4 {
                frac = frac * 10 + d;
                seen = seen + 1;
            }
            any = true;
            *pos = *pos + 1;
        }
        if !any {
            return None;
        }
        // scale a short fractional run up to four places
        while seen < 4
            invariant
                seen <= 4,
                0 <= frac,
                seen == 0 ==> frac == 0,
                seen == 1 ==> frac < 10,
                seen == 2 ==> frac < 100,
                seen == 3 ==> frac < 1_000,
                seen == 4 ==> frac < 10_000,
            decreases 4 - seen,
        {
            frac = frac * 10;
            seen = seen + 1;
        }
    }
    proof {
        crate::geom::lemma_mul_bound(whole as int, FP_ONE as int, 10_000_000_000, 10_000);
    }
    let magnitude: i64 = whole as i64 * FP_ONE + frac;
    if neg {
        Some(-magnitude)
    } else {
        Some(magnitude)
    }
}

/// Decodes a signed whole number.
pub fn parse_i64_token(v: &Vec<u8>, pos: &mut usize) -> (r: Option<i64>)
    requires
        *old(pos) <= v@.len(),
    ensures
        *old(pos) <= *final(pos) <= v@.len(),
        r matches Some(x) ==> -1_000_000_000_000_000 <= x <= 1_000_000_000_000_000,
{
    skip_ws(v, pos);
    let mut neg: bool = false;
    if *pos < v.len() && v[*pos] == 45 {
        neg = true;
        *pos = *pos + 1;
    }
    match parse_u64_token(v, pos) {
        Some(n) => {
            let m = n as i64;
            if neg { Some(-m) } else { Some(m) }
        }
        None => None,
    }
}

/// The protocol's docking-status mapping, pinned value by value.
pub open spec fn spec_docking_status(raw: int) -> Option<DockingStatus> {
    if raw == 0 { Some(DockingStatus::UNDOCKED) }
    else if raw == 1 { Some(DockingStatus::DOCKING) }
    else if raw == 2 { Some(DockingStatus::DOCKED) }
    else if raw == 3 { Some(DockingStatus::UNDOCKING) }
    else { None }
}

/// Decodes the docking-status token, exactly as `spec_docking_status`.
pub fn decode_docking_status(raw: i64) -> (r: Option<DockingStatus>)
    ensures
        r == spec_docking_status(raw as int),
{
    match raw {
        0 => Some(DockingStatus::UNDOCKED),
        1 => Some(DockingStatus::DOCKING),
        2 => Some(DockingStatus::DOCKED),
        3 => Some(DockingStatus::UNDOCKING),
        _ => None,
    }
}

/// Decodes one ship.
fn parse_ship(v: &Vec<u8>, pos: &mut usize, owner_id: i32) -> (r: Option<Ship>)
    requires
        *old(pos) <= v@.len(),
    ensures
        *old(pos) <= *final(pos) <= v@.len(),
        r matches Some(s) ==> s.wf() && s.owner_id == owner_id && s.command is None
            && s.velocity_x == 0 && s.velocity_y == 0
            && (s.docking_status == DockingStatus::UNDOCKED <==> s.docked_planet is None),
{
    let id = match parse_i64_token(v, pos) { Some(x) => x, None => { return None; } };
    let x = match parse_fp_token(v, pos) { Some(x) => x, None => { return None; } };
    let y = match parse_fp_token(v, pos) { Some(x) => x, None => { return None; } };
    let hp = match parse_i64_token(v, pos) { Some(x) => x, None => { return None; } };
    let _vx = match parse_fp_token(v, pos) { Some(x) => x, None => { return None; } };
    let _vy = match parse_fp_token(v, pos) { Some(x) => x, None => { return None; } };
    let status_raw = match parse_i64_token(v, pos) { Some(x) => x, None => { return None; } };
    let docked_raw = match parse_i64_token(v, pos) { Some(x) => x, None => { return None; } };
    let progress = match parse_i64_token(v, pos) { Some(x) => x, None => { return None; } };
    let cooldown = match parse_i64_token(v, pos) { Some(x) => x, None => { return None; } };
    if id < 0 || id > 1_000_000_000 { return None; }
    if x < -99_000_000 || x > 99_000_000 || y < -99_000_000 || y > 99_000_000 { return None; }
    if hp < 0 || hp > MAX_SHIP_HEALTH { return None; }
    let status = match decode_docking_status(status_raw) {
        Some(s) => s,
        None => { return None; }
    };
    if docked_raw < -1_000_000_000 || docked_raw > 1_000_000_000 { return None; }
    if progress < -1_000_000_000 || progress > 1_000_000_000 { return None; }
    if cooldown < -1_000_000_000 || cooldown > 1_000_000_000 { return None; }
    let docked_planet = match status {
        DockingStatus::UNDOCKED => None,
        _ => Some(docked_raw as i32),
    };
    Some(Ship {
        id: id as i32,
        owner_id,
        position: Position(x, y),
        hp: hp as i32,
        // the protocol's velocity hints are always zero: the scratch
        // velocity starts clear and is filled by prediction
        velocity_x: 0,
        velocity_y: 0,
        docking_status: status,
        docked_planet,
        progress: progress as i32,
        cooldown: cooldown as i32,
        command: None,
    })
}

/// Decodes one player and its ships: every ship carries the player's
/// identity, the strength scalar is the fleet size on the `FP_ONE`
/// scale, and every command slot starts empty.
fn parse_player(v: &Vec<u8>, pos: &mut usize) -> (r: Option<Player>)
    requires
        *old(pos) <= v@.len(),
    ensures
        *old(pos) <= *final(pos) <= v@.len(),
        r matches Some(p) ==> p.wf()
            && p.strength == p.ships@.len() * FP_ONE as int
            && (forall|i: int| 0 <= i < p.ships@.len()
                ==> (#[trigger] p.ships@[i]).owner_id == p.id
                    && p.ships@[i].command is None),
    {
    let id = match parse_i64_token(v, pos) { Some(x) => x, None => { return None; } };
    if id < 0 || id > 1_000_000 { return None; }
    let count = match parse_u64_token(v, pos) { Some(x) => x, None => { return None; } };
    if count > 5_000 { return None; }
    let n = count as usize;
    let mut ships: Vec<Ship> = Vec::new();
    let mut i: usize = 0;
    while i < n
        invariant
            i <= n,
            n <= 5_000,
            *old(pos) <= *pos <= v@.len(),
            ships@.len() == i,
            forall|k: int| 0 <= k < ships@.len() ==> (#[trigger] ships@[k]).wf()
                && ships@[k].owner_id == id as i32 && ships@[k].command is None,
        decreases n - i,
    {
        let s = match parse_ship(v, pos, id as i32) { Some(s) => s, None => { return None; } };
        ships.push(s);
        i = i + 1;
    }
    let strength: i64 = (n as i64) * FP_ONE;
    Some(Player { id: id as i32, ships, strength })
}

/// Decodes one planet.
fn parse_planet(v: &Vec<u8>, pos: &mut usize) -> (r: Option<Planet>)
    requires
        *old(pos) <= v@.len(),
    ensures
        *old(pos) <= *final(pos) <= v@.len(),
        r matches Some(p) ==> p.wf() && p.capacity_ok() && p.committed_ships == 0,
{
    let id = match parse_i64_token(v, pos) { Some(x) => x, None => { return None; } };
    let x = match parse_fp_token(v, pos) { Some(x) => x, None => { return None; } };
    let y = match parse_fp_token(v, pos) { Some(x) => x, None => { return None; } };
    let hp = match parse_i64_token(v, pos) { Some(x) => x, None => { return None; } };
    let radius = match parse_fp_token(v, pos) { Some(x) => x, None => { return None; } };
    let spots = match parse_i64_token(v, pos) { Some(x) => x, None => { return None; } };
    let production = match parse_i64_token(v, pos) { Some(x) => x, None => { return None; } };
    let resources = match parse_i64_token(v, pos) { Some(x) => x, None => { return None; } };
    let owned = match parse_i64_token(v, pos) { Some(x) => x, None => { return None; } };
    let owner_raw = match parse_i64_token(v, pos) { Some(x) => x, None => { return None; } };
    let docked_count = match parse_u64_token(v, pos) { Some(x) => x, None => { return None; } };
    if id < 0 || id > 1_000_000_000 { return None; }
    if x < -99_000_000 || x > 99_000_000 || y < -99_000_000 || y > 99_000_000 { return None; }
    if hp < 0 || hp > 1_000_000_000 { return None; }
    if radius < 0 || radius > 10_000_000 { return None; }
    if spots < 2 || spots > 6 { return None; }
    if production < 0 || production > 1_000_000_000 { return None; }
    if resources < -1_000_000_000 || resources > 1_000_000_000 { return None; }
    if owner_raw < -1_000_000 || owner_raw > 1_000_000 { return None; }
    if docked_count > spots as u64 { return None; }
    let n = docked_count as usize;
    let mut docked_ships: Vec<i32> = Vec::new();
    let mut i: usize = 0;
    while i < n
        invariant
            i <= n,
            n <= 6,
            *old(pos) <= *pos <= v@.len(),
            docked_ships@.len() == i,
        decreases n - i,
    {
        let sid = match parse_i64_token(v, pos) { Some(x) => x, None => { return None; } };
        if sid < 0 || sid > 1_000_000_000 { return None; }
        docked_ships.push(sid as i32);
        i = i + 1;
    }
    Some(Planet {
        id: id as i32,
        position: Position(x, y),
        hp: hp as i32,
        radius,
        num_docking_spots: spots as i32,
        current_production: production as i32,
        remaining_resources: resources as i32,
        owner: if owned != 0 { Some(owner_raw as i32) } else { None },
        docked_ships,
        committed_ships: 0,
        doomed: false,
    })
}

/// Decodes a whole per-turn snapshot: the player list, then the
/// planet list.  A malformed line decodes to nothing; whatever comes
/// back is well-formed, with every planet's pledge count fresh.
pub fn parse_game_state(v: &Vec<u8>) -> (r: Option<GameState>)
    ensures
        r matches Some(gs) ==> gs.wf()
            && (forall|p: int| 0 <= p < gs.planets@.len() ==> (#[trigger] gs.planets@[p]).capacity_ok())
            && (forall|p: int| 0 <= p < gs.players@.len()
                ==> (#[trigger] gs.players@[p]).strength == gs.players@[p].ships@.len() * FP_ONE as int
                    && (forall|i: int| 0 <= i < gs.players@[p].ships@.len()
                        ==> (#[trigger] gs.players@[p].ships@[i]).owner_id == gs.players@[p].id
                            && gs.players@[p].ships@[i].command is None)),
{
    let mut pos: usize = 0;
    let n_players = match parse_u64_token(v, &mut pos) { Some(x) => x, None => { return None; } };
    if n_players > 16 { return None; }
    let np = n_players as usize;
    let mut players: Vec<Player> = Vec::new();
    let mut i: usize = 0;
    while i < np
        invariant
            i <= np,
            np <= 16,
            pos <= v@.len(),
            players@.len() == i,
            forall|k: int| 0 <= k < players@.len() ==> (#[trigger] players@[k]).wf()
                && players@[k].strength == players@[k].ships@.len() * FP_ONE as int
                && (forall|j: int| 0 <= j < players@[k].ships@.len()
                    ==> (#[trigger] players@[k].ships@[j]).owner_id == players@[k].id
                        && players@[k].ships@[j].command is None),
        decreases np - i,
    {
        let p = match parse_player(v, &mut pos) { Some(p) => p, None => { return None; } };
        players.push(p);
        i = i + 1;
    }
    let n_planets = match parse_u64_token(v, &mut pos) { Some(x) => x, None => { return None; } };
    if n_planets > 1_000 { return None; }
    let npl = n_planets as usize;
    let mut planets: Vec<Planet> = Vec::new();
    let mut j: usize = 0;
    while j < npl
        invariant
            j <= npl,
            npl <= 1_000,
            pos <= v@.len(),
            planets@.len() == j,
            forall|k: int| 0 <= k < planets@.len()
                ==> (#[trigger] planets@[k]).wf() && planets@[k].capacity_ok(),
        decreases npl - j,
    {
        let p = match parse_planet(v, &mut pos) { Some(p) => p, None => { return None; } };
        planets.push(p);
        j = j + 1;
    }
    Some(GameState { players, planets })
}

/// The decimal digits of a non-negative number, most significant
/// first, as ASCII bytes.
pub open spec fn dec_bytes(n: int) -> Seq<u8>
    decreases n,
{
    if n < 10 {
        seq![(48 + n) as u8]
    } else {
        dec_bytes(n / 10).push((48 + n % 10) as u8)
    }
}

/// Appends the decimal digits of `n`.
pub fn push_dec(out: &mut Vec<u8>, n: u32)
    ensures
        final(out)@ == old(out)@ + dec_bytes(n as int),
    decreases n,
{
    if n < 10 {
        out.push(48 + n as u8);
        proof {
            assert(old(out)@ + dec_bytes(n as int) =~= old(out)@.push((48 + n) as u8));
        }
    } else {
        proof {
            assert(n as int / 10 < n as int) by (nonlinear_arith)
                requires n >= 10;
        }
        push_dec(out, n / 10);
        out.push(48 + (n % 10) as u8);
        proof {
            assert(old(out)@ + dec_bytes(n as int)
                =~= (old(out)@ + dec_bytes(n as int / 10)).push((48 + n as int % 10) as u8));
        }
    }
}

} // verus!
