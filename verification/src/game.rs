//! The turn protocol boundary: reading the handshake and per-turn
//! snapshot lines, carrying ship movement history across turns, the
//! wall-clock deadline, and encoding commands back to the protocol.
//!
//! Reading a line and reading the clock are the only trusted calls;
//! everything parsed from the lines, and every byte written back, is
//! verified.

use vstd::prelude::*;
use crate::consts::FP_ONE;
use crate::entities::{Command, GameState, Position};
use crate::catalog::GameMap;

verus! {

#[verifier::external_type_specification]
#[verifier::external_body]
pub struct ExInstant(time::Instant);

#[verifier::external_type_specification]
#[verifier::external_body]
pub struct ExSignedDuration(time::SignedDuration);

/// Relies on std::io::Stdin::read_line through std::io::stdin: hands
/// back whatever line the engine sent, as bytes, empty at end of
/// input.
#[verifier::external_body]
fn read_line_stdin_bytes() -> Vec<u8> {
    let mut buffer = std::string::String::new();
    let _ = std::io::stdin().read_line(&mut buffer);
    buffer.into_bytes()
}

/// Relies on time::Instant::now: an opaque reading of the monotonic
/// clock.
#[verifier::external_body]
fn clock_now() -> time::Instant {
    time::Instant::now()
}

/// Relies on time::Instant::elapsed: the signed duration since the
/// instant was taken.
#[verifier::external_body]
fn clock_elapsed(start: &time::Instant) -> time::SignedDuration {
    start.elapsed()
}

/// Relies on time::SignedDuration::whole_milliseconds, truncated to
/// the machine word.
#[verifier::external_body]
fn duration_whole_ms(d: &time::SignedDuration) -> i64 {
    d.whole_milliseconds() as i64
}

/// The turn's wall-clock budget: an instant marking turn start and the
/// two cut-offs, in milliseconds, at which the allocator stops opening
/// new work and stops altogether.
pub struct TurnClock {
    pub start: time::Instant,
    pub soft_limit_ms: i64,
    pub hard_limit_ms: i64,
}

impl TurnClock {
    /// Starts the clock now.
    pub fn begin(soft_limit_ms: i64, hard_limit_ms: i64) -> TurnClock {
        TurnClock { start: clock_now(), soft_limit_ms, hard_limit_ms }
    }

    /// Whether the softer cut-off has passed.  The answer depends on
    /// the clock: nothing is promised of it, and the allocator's
    /// contracts hold whatever it answers.
    pub fn soft_expired(&self) -> bool {
        let d = clock_elapsed(&self.start);
        duration_whole_ms(&d) > self.soft_limit_ms
    }

    /// Whether the hard cut-off has passed.
    pub fn hard_expired(&self) -> bool {
        let d = clock_elapsed(&self.start);
        duration_whole_ms(&d) > self.hard_limit_ms
    }
}

/// One ship's movement history, oldest position first.
pub struct ShipHistory {
    pub id: i32,
    pub positions: Vec<Position>,
}

/// The positions recorded for a ship, if any: the first entry wins.
pub open spec fn find_history(hs: Seq<ShipHistory>, id: i32) -> Option<Seq<Position>>
    decreases hs.len(),
{
    if hs.len() == 0 {
        None
    } else if hs.first().id == id {
        Some(hs.first().positions@)
    } else {
        find_history(hs.drop_first(), id)
    }
}

fn lookup_history(hs: &Vec<ShipHistory>, id: i32) -> (r: Option<&Vec<Position>>)
    ensures
        match r {
            Some(ps) => find_history(hs@, id) == Some(ps@),
            None => find_history(hs@, id) is None,
        },
{
    let n = hs.len();
    let mut i: usize = 0;
    proof {
        assert(hs@.skip(0) =~= hs@);
    }
    while i < n
        invariant
            i <= n,
            n == hs@.len(),
            find_history(hs@, id) == find_history(hs@.skip(i as int), id),
        decreases n - i,
    {
        proof {
            assert(hs@.skip(i as int).first() == hs@[i as int]);
            assert(hs@.skip(i as int).drop_first() =~= hs@.skip(i as int + 1));
        }
        if hs[i].id == id {
            return Some(&hs[i].positions);
        }
        i = i + 1;
    }
    proof {
        assert(hs@.skip(n as int) =~= Seq::<ShipHistory>::empty());
    }
    None
}

/// Carries movement history forward one turn: every ship on the map
/// gets its previous history, if it had one, with its new position
/// appended; a new ship starts a fresh history.
pub fn carry_histories(prev: &Vec<ShipHistory>, state: &GameState) -> (out: Vec<ShipHistory>)
    ensures
        out@.len() == crate::catalog::all_ships_seq(state.players@).len(),
        forall|j: int| 0 <= j < out@.len() ==> {
            let ship = crate::catalog::all_ships_seq(state.players@)[j];
            (#[trigger] out@[j]).id == ship.id
            && out@[j].positions@ == match find_history(prev@, ship.id) {
                Some(ps) => ps.push(ship.pos()),
                None => seq![ship.pos()],
            }
        },
{
    let np = state.players.len();
    let mut out: Vec<ShipHistory> = Vec::new();
    let mut pi: usize = 0;
    while pi < np
        invariant
            pi <= np,
            np == state.players@.len(),
            out@.len() == crate::catalog::all_ships_seq(state.players@.take(pi as int)).len(),
            forall|j: int| 0 <= j < out@.len() ==> {
                let ship = crate::catalog::all_ships_seq(state.players@.take(pi as int))[j];
                (#[trigger] out@[j]).id == ship.id
                && out@[j].positions@ == match find_history(prev@, ship.id) {
                    Some(ps) => ps.push(ship.pos()),
                    None => seq![ship.pos()],
                }
            },
        decreases np - pi,
    {
        proof {
            assert(state.players@.take(pi as int + 1).drop_last() =~= state.players@.take(pi as int));
            assert(state.players@.take(pi as int + 1).last() == state.players@[pi as int]);
        }
        let player = &state.players[pi];
        let ns = player.ships.len();
        let mut si: usize = 0;
        while si < ns
            invariant
                si <= ns,
                pi < np,
                np == state.players@.len(),
                ns == player.ships@.len(),
                player == &state.players[pi as int],
                out@.len() == crate::catalog::all_ships_seq(state.players@.take(pi as int)).len() + si,
                forall|j: int| 0 <= j < out@.len() ==> {
                    let ship = (crate::catalog::all_ships_seq(state.players@.take(pi as int))
                        + player.ships@.take(si as int))[j];
                    (#[trigger] out@[j]).id == ship.id
                    && out@[j].positions@ == match find_history(prev@, ship.id) {
                        Some(ps) => ps.push(ship.pos()),
                        None => seq![ship.pos()],
                    }
                },
            decreases ns - si,
        {
            proof {
                assert(player.ships@.take(si as int + 1) =~= player.ships@.take(si as int).push(player.ships@[si as int]));
            }
            let ship = &player.ships[si];
            let mut positions: Vec<Position> = match lookup_history(prev, ship.id) {
                Some(ps) => ps.clone(),
                None => Vec::new(),
            };
            proof {
                match find_history(prev@, ship.id) {
                    Some(ps) => {
                        assert(positions@ =~= ps);
                    }
                    None => {
                        assert(positions@ =~= Seq::<Position>::empty());
                    }
                }
            }
            positions.push(ship.get_position());
            out.push(ShipHistory { id: ship.id, positions });
            si = si + 1;
        }
        proof {
            assert(player.ships@.take(ns as int) =~= player.ships@);
        }
        pi = pi + 1;
    }
    proof {
        assert(state.players@.take(np as int) =~= state.players@);
    }
    out
}

/// The handshake values: this bot's identity and the world size in
/// whole units.
#[derive(Debug)]
pub struct Game {
    pub my_id: usize,
    pub map_width: i32,
    pub map_height: i32,
}

/// Decodes the handshake identity from a line: the value of its
/// first decimal token, accepted only up to the sixteen-player cap.
/// No token, an oversized number, or an identity past the cap
/// decodes to nothing.
pub fn decode_id(line: &Vec<u8>) -> (r: Option<usize>)
    ensures
        r matches Some(id) ==> id <= 15
            && exists|s: int, e: int| 0 <= s < e <= line@.len()
                && (forall|k: int| s <= k < e ==> crate::parse::is_digit(#[trigger] line@[k]))
                && id == crate::parse::dec_val(line@.subrange(s, e)),
{
    let mut pos: usize = 0;
    match crate::parse::parse_u64_token(line, &mut pos) {
        Some(n) => if n <= 15 { Some(n as usize) } else { None },
        None => None,
    }
}

/// Decodes the world size from a line: the values of its first two
/// decimal tokens, each accepted only in (0, 1000] whole units.
pub fn decode_size(line: &Vec<u8>) -> (r: Option<(i32, i32)>)
    ensures
        r matches Some(wh) ==> 0 < wh.0 <= 1_000 && 0 < wh.1 <= 1_000
            && exists|s1: int, e1: int, s2: int, e2: int|
                0 <= s1 < e1 <= s2 < e2 <= line@.len()
                && (forall|k: int| s1 <= k < e1 ==> crate::parse::is_digit(#[trigger] line@[k]))
                && (forall|k: int| s2 <= k < e2 ==> crate::parse::is_digit(#[trigger] line@[k]))
                && wh.0 == crate::parse::dec_val(line@.subrange(s1, e1))
                && wh.1 == crate::parse::dec_val(line@.subrange(s2, e2)),
{
    let mut pos: usize = 0;
    let w = match crate::parse::parse_u64_token(line, &mut pos) {
        Some(n) => n,
        None => { return None; }
    };
    let h = match crate::parse::parse_u64_token(line, &mut pos) {
        Some(n) => n,
        None => { return None; }
    };
    if 0 < w && w <= 1_000 && 0 < h && h <= 1_000 {
        Some((w as i32, h as i32))
    } else {
        None
    }
}

impl Game {
    /// Reads the handshake's identity line and decodes it with
    /// `decode_id`, which pins the decoded value; the line itself is
    /// whatever the engine sent.
    pub fn read_id() -> (r: Option<usize>)
        ensures
            r matches Some(id) ==> id <= 15,
    {
        let line = read_line_stdin_bytes();
        decode_id(&line)
    }

    /// Reads the handshake's world-size line and decodes it with
    /// `decode_size`, which pins the decoded pair.
    pub fn read_size() -> (r: Option<(i32, i32)>)
        ensures
            r matches Some(wh) ==> 0 < wh.0 <= 1_000 && 0 < wh.1 <= 1_000,
    {
        let line = read_line_stdin_bytes();
        decode_size(&line)
    }

    /// Reads and decodes the first snapshot line into a map.
    pub fn create_map(&self) -> (r: Option<GameMap>)
        requires
            self.my_id <= 15,
            0 < self.map_width <= 1_000,
            0 < self.map_height <= 1_000,
        ensures
            r matches Some(m) ==> m.wf() && m.my_id == self.my_id,
    {
        let line = read_line_stdin_bytes();
        let state = match crate::parse::parse_game_state(&line) {
            Some(gs) => gs,
            None => { return None; }
        };
        Some(GameMap::new(self.my_id as i32,
            self.map_width as i64 * FP_ONE, self.map_height as i64 * FP_ONE, state))
    }

    /// Reads and decodes one turn's snapshot line, starts the turn
    /// clock, and carries every ship's movement history forward.  A
    /// malformed line decodes to no map: the caller treats that as
    /// fatal, since there is no sane default world.
    pub fn update_map(&self, prev_histories: &Vec<ShipHistory>) -> (r: (Option<(GameMap, Vec<ShipHistory>)>, TurnClock))
        requires
            self.my_id <= 15,
            0 < self.map_width <= 1_000,
            0 < self.map_height <= 1_000,
        ensures
            r.0 matches Some(mh) ==> mh.0.wf() && mh.0.my_id == self.my_id
                && mh.0.width == self.map_width * FP_ONE
                && mh.0.height == self.map_height * FP_ONE
                && (forall|p: int| 0 <= p < mh.0.state.planets@.len()
                    ==> (#[trigger] mh.0.state.planets@[p]).capacity_ok())
                && (forall|p: int| 0 <= p < mh.0.state.players@.len()
                    ==> (#[trigger] mh.0.state.players@[p]).strength
                            == mh.0.state.players@[p].ships@.len() * FP_ONE as int
                        && (forall|i: int| 0 <= i < mh.0.state.players@[p].ships@.len()
                            ==> (#[trigger] mh.0.state.players@[p].ships@[i]).owner_id
                                    == mh.0.state.players@[p].id
                                && mh.0.state.players@[p].ships@[i].command is None))
                && mh.1@.len() == crate::catalog::all_ships_seq(mh.0.state.players@).len()
                && (forall|j: int| 0 <= j < mh.1@.len() ==> {
                    let ship = crate::catalog::all_ships_seq(mh.0.state.players@)[j];
                    (#[trigger] mh.1@[j]).id == ship.id
                    && mh.1@[j].positions@ == match find_history(prev_histories@, ship.id) {
                        Some(ps) => ps.push(ship.pos()),
                        None => seq![ship.pos()],
                    }
                }),
    {
        let line = read_line_stdin_bytes();
        let clock = TurnClock::begin(1_900, 1_925);
        let state = match crate::parse::parse_game_state(&line) {
            Some(gs) => gs,
            None => { return (None, clock); }
        };
        let histories = carry_histories(prev_histories, &state);
        let map = GameMap::new(self.my_id as i32,
            self.map_width as i64 * FP_ONE, self.map_height as i64 * FP_ONE, state);
        (Some((map, histories)), clock)
    }
}

impl Command {
    /// The protocol encoding of this command: its letter and its
    /// numbers, each followed by one space; a stay encodes to nothing.
    pub open spec fn spec_encode(self) -> Seq<u8> {
        match self {
            Command::Thrust(id, sp, an) => seq![116u8, 32u8] + crate::parse::dec_bytes(id as int)
                + seq![32u8] + crate::parse::dec_bytes(sp as int)
                + seq![32u8] + crate::parse::dec_bytes(an as int) + seq![32u8],
            Command::Dock(id, pid) => seq![100u8, 32u8] + crate::parse::dec_bytes(id as int)
                + seq![32u8] + crate::parse::dec_bytes(pid as int) + seq![32u8],
            Command::Undock(id) => seq![117u8, 32u8] + crate::parse::dec_bytes(id as int) + seq![32u8],
            Command::Stay => Seq::empty(),
        }
    }

    /// Encodes this command for the protocol, exactly.
    pub fn encode(&self) -> (out: Vec<u8>)
        requires
            match *self {
                Command::Thrust(id, sp, an) => id >= 0 && sp >= 0 && an >= 0,
                Command::Dock(id, pid) => id >= 0 && pid >= 0,
                Command::Undock(id) => id >= 0,
                Command::Stay => true,
            },
        ensures
            out@ == self.spec_encode(),
    {
        let mut out: Vec<u8> = Vec::new();
        match *self {
            Command::Thrust(id, sp, an) => {
                out.push(116);
                out.push(32);
                crate::parse::push_dec(&mut out, id as u32);
                out.push(32);
                crate::parse::push_dec(&mut out, sp as u32);
                out.push(32);
                crate::parse::push_dec(&mut out, an as u32);
                out.push(32);
                proof {
                    assert(out@ =~= self.spec_encode());
                }
            }
            Command::Dock(id, pid) => {
                out.push(100);
                out.push(32);
                crate::parse::push_dec(&mut out, id as u32);
                out.push(32);
                crate::parse::push_dec(&mut out, pid as u32);
                out.push(32);
                proof {
                    assert(out@ =~= self.spec_encode());
                }
            }
            Command::Undock(id) => {
                out.push(117);
                out.push(32);
                crate::parse::push_dec(&mut out, id as u32);
                out.push(32);
                proof {
                    assert(out@ =~= self.spec_encode());
                }
            }
            Command::Stay => {
                proof {
                    assert(out@ =~= self.spec_encode());
                }
            }
        }
        out
    }
}

} // verus!
