//! The greedy allocator: repeatedly commits the globally best pending
//! (unit, action) pair, rescoring the rest after every commit, until
//! every unit has a command or the turn deadline nears.
//!
//! Candidate actions name their targets by index: a dock move holds an
//! index into the snapshot's planet list, the other kinds an index into
//! the enemy ship list the turn was opened with.

use vstd::prelude::*;
use crate::consts::{FP_ONE, MAX_SPEED, MAX_SHIP_HEALTH, SHIP_RADIUS, DOCK_RADIUS, FUDGE};
use crate::entities::{Command, DockingStatus, GameState, Planet, Player, Position, Ship};
use crate::catalog::{GameMap, side_ships_seq};
use vstd::multiset::Multiset;
use crate::value::{CommitmentLedger, val_mul, val_mul_fp, spec_dock_value, spec_raid_value,
    spec_intercept_value, spec_defense_value, lemma_side_ships_wf};

verus! {

/// The kind of a candidate action.
#[derive(Clone, Copy, PartialEq, Eq, Structural, Debug)]
pub enum MoveType {
    DockMove,
    RaidMove,
    DefendMove,
    InterceptMove,
}

/// One candidate action: its kind, its target's index, and its score.
#[derive(Clone, Copy, PartialEq, Eq, Structural, Debug)]
pub enum Move {
    DockMove(usize, i64),
    RaidMove(usize, i64),
    DefendMove(usize, i64),
    InterceptMove(usize, i64),
}

/// The per-opponent-count preference multipliers.
#[derive(Clone, Copy, PartialEq, Eq, Structural, Debug)]
pub struct Configs {
    pub dock_preference: i64,
    pub raid_preference: i64,
    pub defend_preference: i64,
    pub intercept_preference: i64,
}

impl Configs {
    pub open spec fn wf(self) -> bool {
        0 <= self.dock_preference <= 100_000
        && 0 <= self.raid_preference <= 100_000
        && 0 <= self.defend_preference <= 100_000
        && 0 <= self.intercept_preference <= 100_000
    }
}

impl Move {
    /// The candidate's current score.
    pub open spec fn spec_value(self) -> int {
        match self {
            Move::DockMove(_, v) => v as int,
            Move::RaidMove(_, v) => v as int,
            Move::DefendMove(_, v) => v as int,
            Move::InterceptMove(_, v) => v as int,
        }
    }

    /// The index of the candidate's target in its list.
    pub open spec fn spec_target(self) -> int {
        match self {
            Move::DockMove(t, _) => t as int,
            Move::RaidMove(t, _) => t as int,
            Move::DefendMove(t, _) => t as int,
            Move::InterceptMove(t, _) => t as int,
        }
    }

    pub open spec fn spec_move_type(self) -> MoveType {
        match self {
            Move::DockMove(..) => MoveType::DockMove,
            Move::RaidMove(..) => MoveType::RaidMove,
            Move::DefendMove(..) => MoveType::DefendMove,
            Move::InterceptMove(..) => MoveType::InterceptMove,
        }
    }

    pub fn value(&self) -> (v: i64)
        ensures
            v == self.spec_value(),
    {
        match self {
            Move::DockMove(_, v) => *v,
            Move::RaidMove(_, v) => *v,
            Move::DefendMove(_, v) => *v,
            Move::InterceptMove(_, v) => *v,
        }
    }

    /// The index of the candidate's target: into the planet list for a
    /// dock move, into the enemy ship list otherwise.
    pub fn target_index(&self) -> (t: usize)
        ensures
            t == self.spec_target(),
    {
        match self {
            Move::DockMove(t, _) => *t,
            Move::RaidMove(t, _) => *t,
            Move::DefendMove(t, _) => *t,
            Move::InterceptMove(t, _) => *t,
        }
    }

    pub fn move_type(&self) -> (k: MoveType)
        ensures
            k == self.spec_move_type(),
    {
        match self {
            Move::DockMove(..) => MoveType::DockMove,
            Move::RaidMove(..) => MoveType::RaidMove,
            Move::DefendMove(..) => MoveType::DefendMove,
            Move::InterceptMove(..) => MoveType::InterceptMove,
        }
    }

    /// A candidate is valid when its target index is inside its list.
    pub open spec fn valid(self, n_planets: int, n_enemies: int) -> bool {
        match self {
            Move::DockMove(t, v) => t < n_planets && 0 <= v,
            Move::RaidMove(t, v) => t < n_enemies && 0 <= v,
            Move::DefendMove(t, v) => t < n_enemies && 0 <= v,
            Move::InterceptMove(t, v) => t < n_enemies && 0 <= v,
        }
    }

    /// Rescores this candidate against the current world and ledger.
    pub fn recalculate(
        &mut self, ship: &Ship, game_map: &GameMap, ledger: &CommitmentLedger, configs: &Configs,
        enemies: &Vec<Ship>,
    )
        requires
            ship.wf(),
            game_map.wf(),
            configs.wf(),
            ledger.wf(),
            1 <= game_map.state.planets@.len(),
            enemies@.len() == ledger.len(),
            forall|i: int| 0 <= i < enemies@.len() ==> (#[trigger] enemies@[i]).wf(),
            old(self).valid(game_map.state.planets@.len() as int, enemies@.len() as int),
        ensures
            final(self).spec_move_type() == old(self).spec_move_type(),
            final(self).spec_target() == old(self).spec_target(),
            final(self).valid(game_map.state.planets@.len() as int, enemies@.len() as int),
            final(self).spec_value() == spec_move_value(
                *old(self), *ship, *game_map, enemies@, ledger_at_seqs(*ledger), *configs),
    {
        let k = *self;
        match k {
            Move::DockMove(t, _) => {
                let v = val_mul_fp(configs.dock_preference,
                    ship.dock_value(&game_map.state.planets[t], game_map));
                *self = Move::DockMove(t, v);
            }
            Move::RaidMove(t, _) => {
                let committed = &ledger.entries[t];
                proof { assert(ledger.at(t as int) == committed@); }
                let v = val_mul_fp(configs.raid_preference,
                    ship.raid_value(&enemies[t], game_map, committed));
                *self = Move::RaidMove(t, v);
            }
            Move::DefendMove(t, _) => {
                let committed = &ledger.entries[t];
                proof { assert(ledger.at(t as int) == committed@); }
                let v = val_mul_fp(configs.defend_preference,
                    ship.defense_value(&enemies[t], game_map, committed));
                *self = Move::DefendMove(t, v);
            }
            Move::InterceptMove(t, _) => {
                let committed = &ledger.entries[t];
                proof { assert(ledger.at(t as int) == committed@); }
                let v = val_mul_fp(configs.intercept_preference,
                    ship.intercept_value(&enemies[t], committed));
                *self = Move::InterceptMove(t, v);
            }
        }
    }
}

/// The ledger's entries as plain sequences.
pub open spec fn ledger_at_seqs(led: CommitmentLedger) -> Seq<Seq<i32>> {
    Seq::new(led.len() as nat, |i: int| led.at(i))
}

/// What a candidate's score is, as a function of the world, the
/// ledger and the preferences alone.
pub open spec fn spec_move_value(
    m: Move, ship: Ship, game_map: GameMap, enemies: Seq<Ship>, ledger: Seq<Seq<i32>>, configs: Configs,
) -> int {
    match m {
        Move::DockMove(t, _) => val_mul(configs.dock_preference as int,
            spec_dock_value(ship, game_map.state.planets@[t as int], game_map.state.planets@,
                game_map.width as int, game_map.height as int)),
        Move::RaidMove(t, _) => val_mul(configs.raid_preference as int,
            spec_raid_value(ship, enemies[t as int], game_map.state.players@, ledger[t as int])),
        Move::DefendMove(t, _) => val_mul(configs.defend_preference as int,
            spec_defense_value(ship, enemies[t as int], game_map.state.players@, game_map.my_id, ledger[t as int])),
        Move::InterceptMove(t, _) => val_mul(configs.intercept_preference as int,
            spec_intercept_value(ship, enemies[t as int], ledger[t as int])),
    }
}

/// A move of one kind aimed at one target index, with a score.
pub open spec fn move_of(kind: MoveType, t: usize, v: i64) -> Move {
    match kind {
        MoveType::DockMove => Move::DockMove(t, v),
        MoveType::RaidMove => Move::RaidMove(t, v),
        MoveType::DefendMove => Move::DefendMove(t, v),
        MoveType::InterceptMove => Move::InterceptMove(t, v),
    }
}

/// The scored candidate list of one kind over a target list: one
/// move per target, in order, each scored against the given world,
/// ledger and preferences.
pub open spec fn scored_moves(
    kind: MoveType, targets: Seq<usize>, ship: Ship, gm: GameMap,
    enemies: Seq<Ship>, led: Seq<Seq<i32>>, configs: Configs,
) -> Seq<Move> {
    Seq::new(targets.len(), |i: int| move_of(kind, targets[i],
        spec_move_value(move_of(kind, targets[i], 0), ship, gm, enemies, led, configs) as i64))
}

/// A move is determined by its kind, target and score.
proof fn lemma_move_eq(m: Move, kind: MoveType, t: usize, v: i64)
    requires
        m.spec_move_type() == kind,
        m.spec_target() == t as int,
        m.spec_value() == v as int,
    ensures
        m == move_of(kind, t, v),
{
}

/// A move list sorted ascending by score.
pub open spec fn sorted_by_value(ms: Seq<Move>) -> bool {
    forall|i: int, j: int| 0 <= i <= j < ms.len() ==> (#[trigger] ms[i]).spec_value() <= (#[trigger] ms[j]).spec_value()
}

/// Every move of a list is valid.
pub open spec fn moves_valid(ms: Seq<Move>, n_planets: int, n_enemies: int) -> bool {
    forall|i: int| 0 <= i < ms.len() ==> (#[trigger] ms[i]).valid(n_planets, n_enemies)
}

/// Sorts a move list ascending by score: the result is a permutation
/// of the input.  Equal scores keep no particular order beyond the
/// deterministic choice of taking the earliest minimum first.
pub fn sort_moves_by_value(moves: &Vec<Move>) -> (r: Vec<Move>)
    ensures
        sorted_by_value(r@),
        r@.to_multiset() == moves@.to_multiset(),
        r@.len() == moves@.len(),
        forall|x: Move| r@.contains(x) ==> moves@.contains(x),
{
    broadcast use vstd::seq_lib::group_to_multiset_ensures;

    let mut rest: Vec<Move> = Vec::new();
    let nn = moves.len();
    let mut c: usize = 0;
    while c < nn
        invariant
            c <= nn,
            rest@ == moves@.take(c as int),
        decreases nn - c,
    {
        proof {
            assert(moves@.take(c as int + 1) =~= moves@.take(c as int).push(moves@[c as int]));
        }
        rest.push(moves[c]);
        c = c + 1;
    }
    proof {
        assert(moves@.take(nn as int) =~= moves@);
    }
    let mut out: Vec<Move> = Vec::new();
    while rest.len() > 0
        invariant
            out@.to_multiset().add(rest@.to_multiset()) == moves@.to_multiset(),
            out@.len() + rest@.len() == moves@.len(),
            sorted_by_value(out@),
            forall|i: int, j: int| 0 <= i < out@.len() && 0 <= j < rest@.len()
                ==> (#[trigger] out@[i]).spec_value() <= (#[trigger] rest@[j]).spec_value(),
        decreases rest@.len(),
    {
        let n = rest.len();
        let mut min_i: usize = 0;
        let mut min_v: i64 = rest[0].value();
        let mut i: usize = 1;
        while i < n
            invariant
                n == rest@.len(),
                1 <= i <= n,
                min_i < i,
                min_v == rest@[min_i as int].spec_value(),
                forall|k: int| 0 <= k < i ==> min_v <= (#[trigger] rest@[k]).spec_value(),
            decreases n - i,
        {
            let v = rest[i].value();
            if v < min_v {
                min_i = i;
                min_v = v;
            }
            i = i + 1;
        }
        let m = rest[min_i];
        let ghost old_out = out@;
        let ghost old_rest = rest@;
        out.push(m);
        rest.remove(min_i);
        proof {
            assert(out@ == old_out.push(m));
            assert(rest@ == old_rest.remove(min_i as int));
            assert(out@.to_multiset() == old_out.to_multiset().insert(m));
            assert(rest@.to_multiset() == old_rest.to_multiset().remove(m));
            assert(old_rest.to_multiset().count(m) > 0) by {
                assert(old_rest.contains(m));
            }
            assert(out@.to_multiset().add(rest@.to_multiset()) =~= moves@.to_multiset());
            assert forall|a: int, b: int| 0 <= a <= b < out@.len()
                implies (#[trigger] out@[a]).spec_value() <= (#[trigger] out@[b]).spec_value() by {
                if b < out@.len() - 1 {
                    assert(out@[a] == old_out[a] && out@[b] == old_out[b]);
                }
            }
            assert forall|a: int, b: int| 0 <= a < out@.len() && 0 <= b < rest@.len()
                implies (#[trigger] out@[a]).spec_value() <= (#[trigger] rest@[b]).spec_value() by {
                if b < min_i as int {
                    assert(rest@[b] == old_rest[b]);
                } else {
                    assert(rest@[b] == old_rest[b + 1]);
                }
            }
        }
    }
    proof {
        assert forall|x: Move| out@.contains(x) implies moves@.contains(x) by {
            assert(out@.to_multiset().count(x) > 0);
            assert(moves@.to_multiset().count(x) > 0);
        }
    }
    out
}

/// The per-unit allocation state: the unit's candidate actions by
/// kind, each list kept sorted ascending by score, a retired side
/// list per kind, and the kind whose head currently scores best.
pub struct ShipMoves {
    pub ship: Ship,
    /// the ship's index in this bot's ship list
    pub ship_index: usize,
    pub dock_moves: Vec<Move>,
    pub raid_moves: Vec<Move>,
    pub defend_moves: Vec<Move>,
    pub intercept_moves: Vec<Move>,
    pub deqd_dock_moves: Vec<Move>,
    pub deqd_raid_moves: Vec<Move>,
    pub deqd_defend_moves: Vec<Move>,
    pub deqd_intercept_moves: Vec<Move>,
    pub best_move: MoveType,
}

impl ShipMoves {
    /// The active list of one kind.
    pub open spec fn list_of(self, k: MoveType) -> Seq<Move> {
        match k {
            MoveType::DockMove => self.dock_moves@,
            MoveType::RaidMove => self.raid_moves@,
            MoveType::DefendMove => self.defend_moves@,
            MoveType::InterceptMove => self.intercept_moves@,
        }
    }

    /// How many candidates are still active.
    pub open spec fn active_total(self) -> int {
        self.dock_moves@.len() + self.raid_moves@.len() + self.defend_moves@.len()
            + self.intercept_moves@.len() as int
    }

    /// How many candidates are retired.
    pub open spec fn retired_total(self) -> int {
        self.deqd_dock_moves@.len() + self.deqd_raid_moves@.len() + self.deqd_defend_moves@.len()
            + self.deqd_intercept_moves@.len() as int
    }

    /// Each list holds only moves of its kind.
    pub open spec fn kinds_ok(self) -> bool {
        &&& forall|i: int| 0 <= i < self.dock_moves@.len()
            ==> (#[trigger] self.dock_moves@[i]).spec_move_type() == MoveType::DockMove
        &&& forall|i: int| 0 <= i < self.raid_moves@.len()
            ==> (#[trigger] self.raid_moves@[i]).spec_move_type() == MoveType::RaidMove
        &&& forall|i: int| 0 <= i < self.defend_moves@.len()
            ==> (#[trigger] self.defend_moves@[i]).spec_move_type() == MoveType::DefendMove
        &&& forall|i: int| 0 <= i < self.intercept_moves@.len()
            ==> (#[trigger] self.intercept_moves@[i]).spec_move_type() == MoveType::InterceptMove
        &&& forall|i: int| 0 <= i < self.deqd_dock_moves@.len()
            ==> (#[trigger] self.deqd_dock_moves@[i]).spec_move_type() == MoveType::DockMove
        &&& forall|i: int| 0 <= i < self.deqd_raid_moves@.len()
            ==> (#[trigger] self.deqd_raid_moves@[i]).spec_move_type() == MoveType::RaidMove
        &&& forall|i: int| 0 <= i < self.deqd_defend_moves@.len()
            ==> (#[trigger] self.deqd_defend_moves@[i]).spec_move_type() == MoveType::DefendMove
        &&& forall|i: int| 0 <= i < self.deqd_intercept_moves@.len()
            ==> (#[trigger] self.deqd_intercept_moves@[i]).spec_move_type() == MoveType::InterceptMove
    }

    /// Every candidate in every list points inside its target list.
    pub open spec fn lists_ok(self, n_planets: int, n_enemies: int) -> bool {
        &&& self.ship.wf()
        &&& self.kinds_ok()
        &&& moves_valid(self.dock_moves@, n_planets, n_enemies)
        &&& moves_valid(self.raid_moves@, n_planets, n_enemies)
        &&& moves_valid(self.defend_moves@, n_planets, n_enemies)
        &&& moves_valid(self.intercept_moves@, n_planets, n_enemies)
        &&& moves_valid(self.deqd_dock_moves@, n_planets, n_enemies)
        &&& moves_valid(self.deqd_raid_moves@, n_planets, n_enemies)
        &&& moves_valid(self.deqd_defend_moves@, n_planets, n_enemies)
        &&& moves_valid(self.deqd_intercept_moves@, n_planets, n_enemies)
        &&& self.active_total() + self.retired_total() <= 400_000
    }

    /// A fully coherent allocation state: valid lists, and a best-kind
    /// pointer aimed at a nonempty list whenever anything is active.
    pub open spec fn wf(self, n_planets: int, n_enemies: int) -> bool {
        self.lists_ok(n_planets, n_enemies)
        && (self.active_total() > 0 ==> self.list_of(self.best_move).len() > 0)
    }

    /// How many candidate actions this unit still has active.
    pub fn remaining_moves(&self) -> (n: usize)
        requires
            self.active_total() + self.retired_total() <= 400_000,
        ensures
            n == self.active_total(),
    {
        self.dock_moves.len() + self.raid_moves.len() + self.defend_moves.len()
            + self.intercept_moves.len()
    }

    /// The unit's best pending candidate: the head of the best list.
    pub fn best_move(&self) -> (m: &Move)
        requires
            self.list_of(self.best_move).len() > 0,
        ensures
            *m == self.list_of(self.best_move).first(),
    {
        match self.best_move {
            MoveType::DockMove => &self.dock_moves[0],
            MoveType::RaidMove => &self.raid_moves[0],
            MoveType::DefendMove => &self.defend_moves[0],
            MoveType::InterceptMove => &self.intercept_moves[0],
        }
    }

    /// Re-aims `best_move` at the kind whose head scores lowest,
    /// earliest kind first on ties.
    pub fn refresh_best_move(&mut self)
        requires
            old(self).active_total() > 0,
        ensures
            *final(self) == (ShipMoves { best_move: final(self).best_move, ..*old(self) }),
            final(self).list_of(final(self).best_move).len() > 0,
            forall|k: MoveType| old(self).list_of(k).len() > 0
                ==> final(self).list_of(final(self).best_move).first().spec_value()
                    <= (#[trigger] old(self).list_of(k)).first().spec_value(),
    {
        let mut best: MoveType = MoveType::DockMove;
        let mut best_v: i64 = 0;
        let mut found: bool = false;
        if self.dock_moves.len() > 0 {
            best = MoveType::DockMove;
            best_v = self.dock_moves[0].value();
            found = true;
        }
        if self.raid_moves.len() > 0 && (!found || self.raid_moves[0].value() < best_v) {
            best = MoveType::RaidMove;
            best_v = self.raid_moves[0].value();
            found = true;
        }
        if self.defend_moves.len() > 0 && (!found || self.defend_moves[0].value() < best_v) {
            best = MoveType::DefendMove;
            best_v = self.defend_moves[0].value();
            found = true;
        }
        if self.intercept_moves.len() > 0 && (!found || self.intercept_moves[0].value() < best_v) {
            best = MoveType::InterceptMove;
            best_v = self.intercept_moves[0].value();
            found = true;
        }
        self.best_move = best;
    }

    /// Retires the unit's current best candidate: it moves to its
    /// kind's side list and will not be retried until the next pass.
    pub fn update_best_move(&mut self)
        requires
            old(self).active_total() > 0,
            old(self).list_of(old(self).best_move).len() > 0,
            old(self).active_total() + old(self).retired_total() <= 400_000,
        ensures
            final(self).active_total() == old(self).active_total() - 1,
            final(self).retired_total() == old(self).retired_total() + 1,
            final(self).ship == old(self).ship,
            final(self).ship_index == old(self).ship_index,
            final(self).active_total() > 0 ==> final(self).list_of(final(self).best_move).len() > 0,
            forall|k: MoveType| final(self).list_of(k).to_multiset().add(retired_of(*final(self), k).to_multiset())
                == old(self).list_of(k).to_multiset().add(retired_of(*old(self), k).to_multiset()),
    {
        broadcast use vstd::seq_lib::group_to_multiset_ensures;
        match self.best_move {
            MoveType::DockMove => {
                let m = self.dock_moves.remove(0);
                self.deqd_dock_moves.push(m);
                proof {
                    assert(old(self).dock_moves@.remove(0).to_multiset()
                        == old(self).dock_moves@.to_multiset().remove(old(self).dock_moves@[0]));
                    assert(old(self).dock_moves@.contains(old(self).dock_moves@[0]));
                    assert(self.dock_moves@.to_multiset().add(self.deqd_dock_moves@.to_multiset())
                        =~= old(self).dock_moves@.to_multiset().add(old(self).deqd_dock_moves@.to_multiset()));
                }
            }
            MoveType::RaidMove => {
                let m = self.raid_moves.remove(0);
                self.deqd_raid_moves.push(m);
                proof {
                    assert(old(self).raid_moves@.remove(0).to_multiset()
                        == old(self).raid_moves@.to_multiset().remove(old(self).raid_moves@[0]));
                    assert(old(self).raid_moves@.contains(old(self).raid_moves@[0]));
                    assert(self.raid_moves@.to_multiset().add(self.deqd_raid_moves@.to_multiset())
                        =~= old(self).raid_moves@.to_multiset().add(old(self).deqd_raid_moves@.to_multiset()));
                }
            }
            MoveType::DefendMove => {
                let m = self.defend_moves.remove(0);
                self.deqd_defend_moves.push(m);
                proof {
                    assert(old(self).defend_moves@.remove(0).to_multiset()
                        == old(self).defend_moves@.to_multiset().remove(old(self).defend_moves@[0]));
                    assert(old(self).defend_moves@.contains(old(self).defend_moves@[0]));
                    assert(self.defend_moves@.to_multiset().add(self.deqd_defend_moves@.to_multiset())
                        =~= old(self).defend_moves@.to_multiset().add(old(self).deqd_defend_moves@.to_multiset()));
                }
            }
            MoveType::InterceptMove => {
                let m = self.intercept_moves.remove(0);
                self.deqd_intercept_moves.push(m);
                proof {
                    assert(old(self).intercept_moves@.remove(0).to_multiset()
                        == old(self).intercept_moves@.to_multiset().remove(old(self).intercept_moves@[0]));
                    assert(old(self).intercept_moves@.contains(old(self).intercept_moves@[0]));
                    assert(self.intercept_moves@.to_multiset().add(self.deqd_intercept_moves@.to_multiset())
                        =~= old(self).intercept_moves@.to_multiset().add(old(self).deqd_intercept_moves@.to_multiset()));
                }
            }
        }
        if self.dock_moves.len() + self.raid_moves.len() + self.defend_moves.len()
            + self.intercept_moves.len() > 0 {
            self.refresh_best_move();
        }
    }

    /// Restores every retired candidate to its active list, so that a
    /// target that has become feasible again is reconsidered.
    pub fn recombine_deqs(&mut self)
        requires
            old(self).active_total() + old(self).retired_total() <= 400_000,
        ensures
            final(self).active_total() == old(self).active_total() + old(self).retired_total(),
            final(self).retired_total() == 0,
            final(self).ship == old(self).ship,
            final(self).ship_index == old(self).ship_index,
            final(self).best_move == old(self).best_move,
            forall|k: MoveType| final(self).list_of(k).to_multiset()
                == old(self).list_of(k).to_multiset().add(retired_of(*old(self), k).to_multiset()),
            final(self).dock_moves@ == old(self).dock_moves@ + old(self).deqd_dock_moves@,
            final(self).raid_moves@ == old(self).raid_moves@ + old(self).deqd_raid_moves@,
            final(self).defend_moves@ == old(self).defend_moves@ + old(self).deqd_defend_moves@,
            final(self).intercept_moves@ == old(self).intercept_moves@ + old(self).deqd_intercept_moves@,
            forall|np: int, ne: int| #[trigger] old(self).lists_ok(np, ne) ==> final(self).lists_ok(np, ne),
    {
        broadcast use vstd::seq_lib::group_to_multiset_ensures;
        append_moves(&mut self.dock_moves, &mut self.deqd_dock_moves);
        append_moves(&mut self.raid_moves, &mut self.deqd_raid_moves);
        append_moves(&mut self.defend_moves, &mut self.deqd_defend_moves);
        append_moves(&mut self.intercept_moves, &mut self.deqd_intercept_moves);
    }
}

/// Every element of `b` is an element of `a`, so a property of all of
/// `a`'s elements holds of all of `b`'s.
proof fn lemma_all_transfer(a: Seq<Move>, b: Seq<Move>, p: spec_fn(Move) -> bool)
    requires
        forall|i: int| 0 <= i < a.len() ==> p(#[trigger] a[i]),
        forall|x: Move| b.contains(x) ==> a.contains(x),
    ensures
        forall|i: int| 0 <= i < b.len() ==> p(#[trigger] b[i]),
{
    assert forall|i: int| 0 <= i < b.len() implies p(#[trigger] b[i]) by {
        assert(b.contains(b[i]));
        assert(a.contains(b[i]));
        let j = choose|j: int| 0 <= j < a.len() && a[j] == b[i];
        assert(p(a[j]));
    }
}

impl ShipMoves {
    /// Re-sorts each kind's active list ascending by score.
    pub fn sort_moves(&mut self)
        requires
            old(self).active_total() + old(self).retired_total() <= 400_000,
        ensures
            final(self).ship == old(self).ship,
            final(self).ship_index == old(self).ship_index,
            final(self).best_move == old(self).best_move,
            final(self).dock_moves@.len() == old(self).dock_moves@.len(),
            final(self).raid_moves@.len() == old(self).raid_moves@.len(),
            final(self).defend_moves@.len() == old(self).defend_moves@.len(),
            final(self).intercept_moves@.len() == old(self).intercept_moves@.len(),
            final(self).deqd_dock_moves@ == old(self).deqd_dock_moves@,
            final(self).deqd_raid_moves@ == old(self).deqd_raid_moves@,
            final(self).deqd_defend_moves@ == old(self).deqd_defend_moves@,
            final(self).deqd_intercept_moves@ == old(self).deqd_intercept_moves@,
            sorted_by_value(final(self).dock_moves@),
            sorted_by_value(final(self).raid_moves@),
            sorted_by_value(final(self).defend_moves@),
            sorted_by_value(final(self).intercept_moves@),
            forall|k: MoveType| (#[trigger] final(self).list_of(k)).to_multiset() == old(self).list_of(k).to_multiset(),
            forall|np: int, ne: int| #[trigger] old(self).lists_ok(np, ne) ==> final(self).lists_ok(np, ne),
    {
        let ghost pre = *self;
        self.dock_moves = sort_moves_by_value(&self.dock_moves);
        self.raid_moves = sort_moves_by_value(&self.raid_moves);
        self.defend_moves = sort_moves_by_value(&self.defend_moves);
        self.intercept_moves = sort_moves_by_value(&self.intercept_moves);
        proof {
            assert forall|np: int, ne: int| #[trigger] pre.lists_ok(np, ne) implies self.lists_ok(np, ne) by {
                lemma_all_transfer(pre.dock_moves@, self.dock_moves@,
                    |m: Move| m.valid(np, ne) && m.spec_move_type() == MoveType::DockMove);
                lemma_all_transfer(pre.raid_moves@, self.raid_moves@,
                    |m: Move| m.valid(np, ne) && m.spec_move_type() == MoveType::RaidMove);
                lemma_all_transfer(pre.defend_moves@, self.defend_moves@,
                    |m: Move| m.valid(np, ne) && m.spec_move_type() == MoveType::DefendMove);
                lemma_all_transfer(pre.intercept_moves@, self.intercept_moves@,
                    |m: Move| m.valid(np, ne) && m.spec_move_type() == MoveType::InterceptMove);
            }
            assert forall|k: MoveType| (#[trigger] self.list_of(k)).to_multiset() == pre.list_of(k).to_multiset() by {
            }
        }
    }

    /// Rescores every candidate, active and retired alike, against the
    /// current world and ledger.
    pub fn recalculate_all_moves(
        &mut self, game_map: &GameMap, ledger: &CommitmentLedger, configs: &Configs, enemies: &Vec<Ship>,
    )
        requires
            old(self).lists_ok(game_map.state.planets@.len() as int, enemies@.len() as int),
            game_map.wf(),
            configs.wf(),
            ledger.wf(),
            1 <= game_map.state.planets@.len(),
            enemies@.len() == ledger.len(),
            forall|i: int| 0 <= i < enemies@.len() ==> (#[trigger] enemies@[i]).wf(),
        ensures
            final(self).lists_ok(game_map.state.planets@.len() as int, enemies@.len() as int),
            final(self).ship == old(self).ship,
            final(self).ship_index == old(self).ship_index,
            final(self).best_move == old(self).best_move,
            final(self).active_total() == old(self).active_total(),
            final(self).retired_total() == old(self).retired_total(),
            final(self).dock_moves@.len() == old(self).dock_moves@.len(),
            final(self).raid_moves@.len() == old(self).raid_moves@.len(),
            final(self).defend_moves@.len() == old(self).defend_moves@.len(),
            final(self).intercept_moves@.len() == old(self).intercept_moves@.len(),
    {
        let ship = self.ship;
        recalc_list(&mut self.dock_moves, &ship, game_map, ledger, configs, enemies);
        recalc_list(&mut self.raid_moves, &ship, game_map, ledger, configs, enemies);
        recalc_list(&mut self.defend_moves, &ship, game_map, ledger, configs, enemies);
        recalc_list(&mut self.intercept_moves, &ship, game_map, ledger, configs, enemies);
    }

    /// Builds the unit's candidate actions: exactly one dock move per
    /// given planet, one raid move per given docked enemy, and a
    /// defend and an intercept move per given free enemy, each scored
    /// against the given world and ledger, each list sorted ascending
    /// by score, and the best kind aimed at a minimal head.
    #[verifier::rlimit(100)]
    pub fn new(
        ship: Ship, ship_index: usize, game_map: &GameMap,
        planets_to_dock: &Vec<usize>, enemy_docked: &Vec<usize>, enemy_undocked: &Vec<usize>,
        enemies: &Vec<Ship>, ledger: &CommitmentLedger, configs: &Configs,
    ) -> (sm: ShipMoves)
        requires
            ship.wf(),
            game_map.wf(),
            configs.wf(),
            ledger.wf(),
            1 <= game_map.state.planets@.len(),
            enemies@.len() == ledger.len(),
            enemies@.len() <= 80_000,
            forall|i: int| 0 <= i < enemies@.len() ==> (#[trigger] enemies@[i]).wf(),
            planets_to_dock@.len() <= game_map.state.planets@.len(),
            enemy_docked@.len() <= enemies@.len(),
            enemy_undocked@.len() <= enemies@.len(),
            forall|i: int| 0 <= i < planets_to_dock@.len()
                ==> (#[trigger] planets_to_dock@[i]) < game_map.state.planets@.len(),
            forall|i: int| 0 <= i < enemy_docked@.len()
                ==> (#[trigger] enemy_docked@[i]) < enemies@.len(),
            forall|i: int| 0 <= i < enemy_undocked@.len()
                ==> (#[trigger] enemy_undocked@[i]) < enemies@.len(),
        ensures
            sm.wf(game_map.state.planets@.len() as int, enemies@.len() as int),
            sm.ship == ship,
            sm.ship_index == ship_index,
            sm.retired_total() == 0,
            sm.active_total() == planets_to_dock@.len() + enemy_docked@.len() + 2 * enemy_undocked@.len(),
            sorted_by_value(sm.dock_moves@),
            sorted_by_value(sm.raid_moves@),
            sorted_by_value(sm.defend_moves@),
            sorted_by_value(sm.intercept_moves@),
            sm.dock_moves@.to_multiset() == scored_moves(MoveType::DockMove, planets_to_dock@,
                ship, *game_map, enemies@, ledger_at_seqs(*ledger), *configs).to_multiset(),
            sm.raid_moves@.to_multiset() == scored_moves(MoveType::RaidMove, enemy_docked@,
                ship, *game_map, enemies@, ledger_at_seqs(*ledger), *configs).to_multiset(),
            sm.defend_moves@.to_multiset() == scored_moves(MoveType::DefendMove, enemy_undocked@,
                ship, *game_map, enemies@, ledger_at_seqs(*ledger), *configs).to_multiset(),
            sm.intercept_moves@.to_multiset() == scored_moves(MoveType::InterceptMove, enemy_undocked@,
                ship, *game_map, enemies@, ledger_at_seqs(*ledger), *configs).to_multiset(),
            forall|k: MoveType| (#[trigger] sm.list_of(k)).len() > 0
                ==> sm.list_of(sm.best_move).len() > 0
                    && sm.list_of(sm.best_move).first().spec_value() <= sm.list_of(k).first().spec_value(),
    {
        let ghost np = game_map.state.planets@.len() as int;
        let ghost ne = enemies@.len() as int;
        let dock_raw = build_moves(MoveType::DockMove, planets_to_dock, &ship, game_map, ledger, configs, enemies);
        let raid_raw = build_moves(MoveType::RaidMove, enemy_docked, &ship, game_map, ledger, configs, enemies);
        let defend_raw = build_moves(MoveType::DefendMove, enemy_undocked, &ship, game_map, ledger, configs, enemies);
        let intercept_raw = build_moves(MoveType::InterceptMove, enemy_undocked, &ship, game_map, ledger, configs, enemies);
        let dock_moves = sort_moves_by_value(&dock_raw);
        let raid_moves = sort_moves_by_value(&raid_raw);
        let defend_moves = sort_moves_by_value(&defend_raw);
        let intercept_moves = sort_moves_by_value(&intercept_raw);
        proof {
            lemma_all_transfer(dock_raw@, dock_moves@,
                |m: Move| m.valid(np, ne) && m.spec_move_type() == MoveType::DockMove);
            lemma_all_transfer(raid_raw@, raid_moves@,
                |m: Move| m.valid(np, ne) && m.spec_move_type() == MoveType::RaidMove);
            lemma_all_transfer(defend_raw@, defend_moves@,
                |m: Move| m.valid(np, ne) && m.spec_move_type() == MoveType::DefendMove);
            lemma_all_transfer(intercept_raw@, intercept_moves@,
                |m: Move| m.valid(np, ne) && m.spec_move_type() == MoveType::InterceptMove);
        }
        let mut sm = ShipMoves {
            ship,
            ship_index,
            dock_moves,
            raid_moves,
            defend_moves,
            intercept_moves,
            deqd_dock_moves: Vec::new(),
            deqd_raid_moves: Vec::new(),
            deqd_defend_moves: Vec::new(),
            deqd_intercept_moves: Vec::new(),
            best_move: MoveType::DockMove,
        };
        if sm.remaining_moves() > 0 {
            let ghost pre = sm;
            sm.refresh_best_move();
            proof {
                assert forall|k: MoveType| (#[trigger] sm.list_of(k)).len() > 0
                    implies sm.list_of(sm.best_move).len() > 0
                        && sm.list_of(sm.best_move).first().spec_value()
                            <= sm.list_of(k).first().spec_value() by {
                    assert(pre.list_of(k) == sm.list_of(k));
                }
            }
        }
        sm
    }
}

/// Builds the scored move list of one kind over a list of target
/// indices.
fn build_moves(
    kind: MoveType, targets: &Vec<usize>, ship: &Ship, game_map: &GameMap,
    ledger: &CommitmentLedger, configs: &Configs, enemies: &Vec<Ship>,
) -> (ms: Vec<Move>)
    requires
        ship.wf(),
        game_map.wf(),
        configs.wf(),
        ledger.wf(),
        1 <= game_map.state.planets@.len(),
        enemies@.len() == ledger.len(),
        forall|i: int| 0 <= i < enemies@.len() ==> (#[trigger] enemies@[i]).wf(),
        kind == MoveType::DockMove ==> forall|i: int| 0 <= i < targets@.len()
            ==> (#[trigger] targets@[i]) < game_map.state.planets@.len(),
        kind != MoveType::DockMove ==> forall|i: int| 0 <= i < targets@.len()
            ==> (#[trigger] targets@[i]) < enemies@.len(),
    ensures
        ms@.len() == targets@.len(),
        moves_valid(ms@, game_map.state.planets@.len() as int, enemies@.len() as int),
        forall|i: int| 0 <= i < ms@.len() ==> (#[trigger] ms@[i]).spec_move_type() == kind,
        ms@ == scored_moves(kind, targets@, *ship, *game_map, enemies@, ledger_at_seqs(*ledger), *configs),
{
    let n = targets.len();
    let mut ms: Vec<Move> = Vec::new();
    let mut i: usize = 0;
    while i < n
        invariant
            i <= n,
            ms@.len() == i,
            moves_valid(ms@, game_map.state.planets@.len() as int, enemies@.len() as int),
            forall|k: int| 0 <= k < i ==> (#[trigger] ms@[k]).spec_move_type() == kind,
            ms@ == scored_moves(kind, targets@.take(i as int), *ship, *game_map,
                enemies@, ledger_at_seqs(*ledger), *configs),
        decreases n - i,
    {
        let t = targets[i];
        let mut m = match kind {
            MoveType::DockMove => Move::DockMove(t, 0),
            MoveType::RaidMove => Move::RaidMove(t, 0),
            MoveType::DefendMove => Move::DefendMove(t, 0),
            MoveType::InterceptMove => Move::InterceptMove(t, 0),
        };
        proof {
            assert(m == move_of(kind, t, 0));
        }
        m.recalculate(ship, game_map, ledger, configs, enemies);
        proof {
            lemma_move_eq(m, kind, t,
                spec_move_value(move_of(kind, t, 0), *ship, *game_map,
                    enemies@, ledger_at_seqs(*ledger), *configs) as i64);
            assert(scored_moves(kind, targets@.take(i as int + 1), *ship, *game_map,
                    enemies@, ledger_at_seqs(*ledger), *configs)
                =~= scored_moves(kind, targets@.take(i as int), *ship, *game_map,
                    enemies@, ledger_at_seqs(*ledger), *configs).push(m));
        }
        ms.push(m);
        i = i + 1;
    }
    proof {
        assert(targets@.take(n as int) =~= targets@);
    }
    ms
}

/// Rescores every move of one list in place.
fn recalc_list(
    list: &mut Vec<Move>, ship: &Ship, game_map: &GameMap,
    ledger: &CommitmentLedger, configs: &Configs, enemies: &Vec<Ship>,
)
    requires
        ship.wf(),
        game_map.wf(),
        configs.wf(),
        ledger.wf(),
        1 <= game_map.state.planets@.len(),
        enemies@.len() == ledger.len(),
        forall|i: int| 0 <= i < enemies@.len() ==> (#[trigger] enemies@[i]).wf(),
        moves_valid(old(list)@, game_map.state.planets@.len() as int, enemies@.len() as int),
    ensures
        final(list)@.len() == old(list)@.len(),
        moves_valid(final(list)@, game_map.state.planets@.len() as int, enemies@.len() as int),
        forall|i: int| 0 <= i < old(list)@.len()
            ==> (#[trigger] final(list)@[i]).spec_move_type() == old(list)@[i].spec_move_type()
                && final(list)@[i].spec_target() == old(list)@[i].spec_target()
                && final(list)@[i].spec_value() == spec_move_value(
                    old(list)@[i], *ship, *game_map, enemies@, ledger_at_seqs(*ledger), *configs),
    {
    let n = list.len();
    let mut i: usize = 0;
    while i < n
        invariant
            i <= n,
            n == list@.len(),
            moves_valid(list@, game_map.state.planets@.len() as int, enemies@.len() as int),
            forall|k: int| i <= k < n ==> (#[trigger] list@[k]) == old(list)@[k],
            forall|k: int| 0 <= k < i
                ==> (#[trigger] list@[k]).spec_move_type() == old(list)@[k].spec_move_type()
                    && list@[k].spec_target() == old(list)@[k].spec_target()
                    && list@[k].spec_value() == spec_move_value(
                        old(list)@[k], *ship, *game_map, enemies@, ledger_at_seqs(*ledger), *configs),
        decreases n - i,
    {
        let m = &mut list[i];
        m.recalculate(ship, game_map, ledger, configs, enemies);
        i = i + 1;
    }
}

/// The retired list of one kind.
pub open spec fn retired_of(sm: ShipMoves, k: MoveType) -> Seq<Move> {
    match k {
        MoveType::DockMove => sm.deqd_dock_moves@,
        MoveType::RaidMove => sm.deqd_raid_moves@,
        MoveType::DefendMove => sm.deqd_defend_moves@,
        MoveType::InterceptMove => sm.deqd_intercept_moves@,
    }
}

/// Moves every element of `from` to the end of `to`, leaving `from`
/// empty.
fn append_moves(to: &mut Vec<Move>, from: &mut Vec<Move>)
    ensures
        final(to)@ == old(to)@ + old(from)@,
        final(from)@.len() == 0,
        final(to)@.to_multiset() == old(to)@.to_multiset().add(old(from)@.to_multiset()),
{
    broadcast use vstd::seq_lib::group_to_multiset_ensures;
    let n = from.len();
    let mut i: usize = 0;
    while i < n
        invariant
            n == from@.len(),
            i <= n,
            from@ == old(from)@,
            to@ == old(to)@ + old(from)@.take(i as int),
        decreases n - i,
    {
        to.push(from[i]);
        proof {
            assert(old(from)@.take(i as int + 1) =~= old(from)@.take(i as int).push(old(from)@[i as int]));
        }
        i = i + 1;
    }
    from.clear();
    proof {
        assert(old(from)@.take(n as int) =~= old(from)@);
        lemma_concat_multiset(old(to)@, old(from)@);
    }
}

/// Sets one ship's scratch velocity, leaving everything else as it
/// was.
pub fn set_ship_velocity_at(state: &mut GameState, pi: usize, si: usize, vx: i64, vy: i64)
    requires
        old(state).wf(),
        pi < old(state).players@.len(),
        si < old(state).players@[pi as int].ships@.len(),
        crate::entities::velocity_ok(vx as int),
        crate::entities::velocity_ok(vy as int),
    ensures
        final(state).wf(),
        final(state).planets == old(state).planets,
        final(state).players@.len() == old(state).players@.len(),
        forall|p: int| 0 <= p < old(state).players@.len() && p != pi as int
            ==> final(state).players@[p] == old(state).players@[p],
        final(state).players@[pi as int].id == old(state).players@[pi as int].id,
        final(state).players@[pi as int].strength == old(state).players@[pi as int].strength,
        final(state).players@[pi as int].ships@.len() == old(state).players@[pi as int].ships@.len(),
        forall|s: int| 0 <= s < old(state).players@[pi as int].ships@.len() && s != si as int
            ==> final(state).players@[pi as int].ships@[s] == old(state).players@[pi as int].ships@[s],
        final(state).players@[pi as int].ships@[si as int] == (Ship {
            velocity_x: vx,
            velocity_y: vy,
            ..old(state).players@[pi as int].ships@[si as int]
        }),
{
    let p = &mut state.players[pi];
    let s = &mut p.ships[si];
    s.velocity_x = vx;
    s.velocity_y = vy;
}

/// Fills one ship's per-turn command slot.
pub fn set_ship_command_at(state: &mut GameState, pi: usize, si: usize, cmd: Command)
    requires
        old(state).wf(),
        pi < old(state).players@.len(),
        si < old(state).players@[pi as int].ships@.len(),
    ensures
        final(state).wf(),
        final(state).planets == old(state).planets,
        final(state).players@.len() == old(state).players@.len(),
        forall|p: int| 0 <= p < old(state).players@.len() && p != pi as int
            ==> final(state).players@[p] == old(state).players@[p],
        final(state).players@[pi as int].id == old(state).players@[pi as int].id,
        final(state).players@[pi as int].strength == old(state).players@[pi as int].strength,
        final(state).players@[pi as int].ships@.len() == old(state).players@[pi as int].ships@.len(),
        forall|s: int| 0 <= s < old(state).players@[pi as int].ships@.len() && s != si as int
            ==> final(state).players@[pi as int].ships@[s] == old(state).players@[pi as int].ships@[s],
        final(state).players@[pi as int].ships@[si as int] == (Ship {
            command: Some(cmd),
            ..old(state).players@[pi as int].ships@[si as int]
        }),
{
    let p = &mut state.players[pi];
    let s = &mut p.ships[si];
    s.command = Some(cmd);
}

/// Pledges one more ship to a planet with spare capacity.
pub fn planet_commit_one(state: &mut GameState, planet_idx: usize)
    requires
        old(state).wf(),
        planet_idx < old(state).planets@.len(),
        old(state).planets@[planet_idx as int].committed_ships as int
            + old(state).planets@[planet_idx as int].docked_ships@.len()
            < old(state).planets@[planet_idx as int].num_docking_spots as int,
    ensures
        final(state).wf(),
        final(state).players == old(state).players,
        final(state).planets@.len() == old(state).planets@.len(),
        forall|p: int| 0 <= p < old(state).planets@.len() && p != planet_idx as int
            ==> final(state).planets@[p] == old(state).planets@[p],
        final(state).planets@[planet_idx as int] == (Planet {
            committed_ships: (old(state).planets@[planet_idx as int].committed_ships + 1) as i32,
            ..old(state).planets@[planet_idx as int]
        }),
        final(state).planets@[planet_idx as int].capacity_ok(),
        forall|p: int| 0 <= p < old(state).planets@.len()
            && (#[trigger] old(state).planets@[p]).capacity_ok()
            ==> final(state).planets@[p].capacity_ok(),
{
    let p = &mut state.planets[planet_idx];
    p.increment_committed_ships();
}

/// Whether a command belongs to the unit with the given identity; a
/// stay belongs to anyone.
pub open spec fn cmd_is_for(c: Command, id: i32) -> bool {
    match c {
        Command::Thrust(s, _, _) => s == id,
        Command::Dock(s, _) => s == id,
        Command::Undock(s) => s == id,
        Command::Stay => true,
    }
}

/// A thrust's magnitude and heading are inside the protocol's ranges.
pub open spec fn cmd_ranges_ok(c: Command) -> bool {
    match c {
        Command::Thrust(_, sp, an) => 0 <= sp <= MAX_SPEED as int && 0 <= an < 360,
        _ => true,
    }
}

/// Pledges hit points against the enemy at `i`: the entry is
/// appended, unless it has already reached the plausibility bound, in
/// which case the whole ledger is left as it was.  No other entry
/// ever changes.
fn ledger_add_guarded(ledger: &mut CommitmentLedger, i: usize, hp: i32)
    requires
        old(ledger).wf(),
        i < old(ledger).len(),
        0 <= hp <= MAX_SHIP_HEALTH as int,
    ensures
        final(ledger).wf(),
        final(ledger).len() == old(ledger).len(),
        old(ledger).at(i as int).len() < 50_000
            ==> final(ledger).at(i as int) == old(ledger).at(i as int).push(hp),
        old(ledger).at(i as int).len() >= 50_000
            ==> final(ledger).at(i as int) == old(ledger).at(i as int),
        forall|j: int| 0 <= j < old(ledger).len() && j != i as int
            ==> #[trigger] final(ledger).at(j) == old(ledger).at(j),
{
    if ledger.entries[i].len() < 50_000 {
        proof { assert(ledger.at(i as int) == ledger.entries@[i as int]@); }
        ledger.add(i, hp);
    } else {
        proof { assert(ledger.at(i as int) == ledger.entries@[i as int]@); }
    }
}

/// A dock candidate's capacity guard: a spot neither docked nor
/// pledged remains.
pub open spec fn dock_capacity_free(p: Planet) -> bool {
    p.num_docking_spots as int - (p.committed_ships as int + p.docked_ships@.len()) != 0
}

/// The point a docking unit aims at: one unit off the planet's
/// effective surface, on the unit's own side.
pub open spec fn spec_dock_dest(ship: Ship, p: Planet) -> Position {
    crate::navigate::spec_closest_point_to(ship.pos(), p.position, p.spec_effective_radius(), FP_ONE as int)
}

/// A free enemy close to the dock point with almost nothing pledged
/// against it.
pub open spec fn raider_at(enemies: Seq<Ship>, idxs: Seq<usize>, led: CommitmentLedger, dest: Position, k: int) -> bool {
    crate::geom::dist_sq(enemies[idxs[k] as int].pos().0 as int, enemies[idxs[k] as int].pos().1 as int,
            dest.0 as int, dest.1 as int)
        < (35 * FP_ONE as int) * (35 * FP_ONE as int)
    && crate::value::strength_of(led.at(idxs[k] as int)) < 500
}

/// Docking under the guns of an uncommitted raider is hopeless.
pub open spec fn nearby_uncommitted_raider(enemies: Seq<Ship>, idxs: Seq<usize>, led: CommitmentLedger, dest: Position) -> bool {
    exists|k: int| 0 <= k < idxs.len() && #[trigger] raider_at(enemies, idxs, led, dest, k)
}

/// Whether the planet will not spawn a new ship before the unit can
/// arrive.
pub open spec fn dock_spawn_timely(ship: Ship, p: Planet) -> bool {
    !(p.spec_turns_until_spawn() * (MAX_SPEED as int * FP_ONE as int)
        < crate::value::surf_between(ship.pos(), SHIP_RADIUS as int, p.position, p.spec_effective_radius())
            + DOCK_RADIUS as int)
}

/// All three dock guards at once: capacity free, no uncommitted
/// raider near the dock point, and a timely arrival.
pub open spec fn dock_guards_pass(ship: Ship, p: Planet, enemies: Seq<Ship>, idxs: Seq<usize>, led: CommitmentLedger) -> bool {
    dock_capacity_free(p)
    && !nearby_uncommitted_raider(enemies, idxs, led, spec_dock_dest(ship, p))
    && dock_spawn_timely(ship, p)
}

/// Close enough to the planet's effective surface to dock outright.
pub open spec fn spec_dock_in_range(ship: Ship, p: Planet) -> bool {
    crate::geom::dist_sq(ship.pos().0 as int, ship.pos().1 as int, p.position.0 as int, p.position.1 as int)
        < (DOCK_RADIUS as int + p.spec_effective_radius()) * (DOCK_RADIUS as int + p.spec_effective_radius())
}

/// A raid turns into a ram when the target is one turn away and the
/// unit projects to die of incoming fire anyway.
pub open spec fn spec_raid_is_kamikaze(ship: Ship, enemy: Ship, players: Seq<Player>) -> bool {
    crate::value::surf_between(ship.pos(), SHIP_RADIUS as int, enemy.pos(), SHIP_RADIUS as int)
        < MAX_SPEED as int * FP_ONE as int
    && crate::value::spec_projected_damage(crate::catalog::all_ships_seq(players),
        crate::catalog::all_ships_seq(players).len() as int, ship) >= ship.hp
}

/// A thrust of the unit's own, in protocol range, proved safe against
/// a catalog.
pub open spec fn thrust_cmd_safe(c: Command, ship: Ship, w: int, h: int, cat: Seq<crate::entities::Obstacle>) -> bool {
    match c {
        Command::Thrust(id, sp, an) => id == ship.id && 0 <= sp <= MAX_SPEED as int && 0 <= an < 360
            && crate::navigate::candidate_safe(w, h, ship.pos(), sp as int, an as int, cat),
        _ => false,
    }
}

/// No candidate thrust, the zero-thrust stay included, is safe
/// against the catalog.
pub open spec fn no_safe_candidate(w: int, h: int, pos: Position, cat: Seq<crate::entities::Obstacle>) -> bool {
    forall|s: int, hh: int| 0 <= s <= MAX_SPEED as int && 0 <= hh < 360
        ==> !crate::navigate::candidate_safe(w, h, pos, s, hh, cat)
}

/// One realization's ledger effect: the target's entry appended (or
/// left alone at the plausibility bound), every other entry unchanged.
pub open spec fn ledger_pledged(led0: CommitmentLedger, led1: CommitmentLedger, t: int, hp: i32) -> bool {
    &&& led1.len() == led0.len()
    &&& (led0.at(t).len() < 50_000 ==> led1.at(t) == led0.at(t).push(hp))
    &&& (led0.at(t).len() >= 50_000 ==> led1.at(t) == led0.at(t))
    &&& forall|j: int| 0 <= j < led0.len() && j != t ==> #[trigger] led1.at(j) == led0.at(j)
}

/// No entry of the ledger changed.
pub open spec fn ledger_unchanged(led0: CommitmentLedger, led1: CommitmentLedger) -> bool {
    led1.len() == led0.len()
    && forall|j: int| 0 <= j < led0.len() ==> #[trigger] led1.at(j) == led0.at(j)
}

/// Attempts to realize a unit's best candidate action as a concrete
/// command.  A dock checks capacity, nearby uncommitted raiders, and
/// spawn timing, then docks outright in range or routes in; the other
/// kinds derive a destination and ask the navigator.  `None` means
/// the candidate is infeasible right now -- a guard fired, or no
/// candidate thrust is safe -- and leaves planets and ledger exactly
/// as they were; the candidate should then be retired.  A successful
/// dock or route towards a planet pledges a docking spot; a
/// successful raid, defense or interception appends the unit's
/// strength to its target's ledger entry.
#[verifier::rlimit(100)]
pub fn try_move(
    best: Move,
    ship: Ship,
    game_map: &mut GameMap,
    enemies: &Vec<Ship>,
    enemy_undocked_idx: &Vec<usize>,
    my_docked: &Vec<Ship>,
    relevant_opponents: usize,
    ledger: &mut CommitmentLedger,
) -> (r: Option<Command>)
    requires
        old(game_map).wf(),
        ship.wf(),
        old(ledger).wf(),
        enemies@.len() == old(ledger).len(),
        enemies@.len() <= 80_000,
        forall|i: int| 0 <= i < enemies@.len() ==> (#[trigger] enemies@[i]).wf(),
        my_docked@.len() <= 80_000,
        forall|i: int| 0 <= i < my_docked@.len() ==> (#[trigger] my_docked@[i]).wf(),
        forall|i: int| 0 <= i < enemy_undocked_idx@.len()
            ==> (#[trigger] enemy_undocked_idx@[i]) < enemies@.len(),
        best.valid(old(game_map).state.planets@.len() as int, enemies@.len() as int),
        1 <= old(game_map).state.planets@.len(),
        forall|p: int| 0 <= p < old(game_map).state.planets@.len()
            ==> (#[trigger] old(game_map).state.planets@[p]).capacity_ok(),
    ensures
        final(game_map).wf(),
        final(game_map).my_id == old(game_map).my_id,
        final(game_map).width == old(game_map).width,
        final(game_map).height == old(game_map).height,
        final(game_map).state.players == old(game_map).state.players,
        final(game_map).state.planets@.len() == old(game_map).state.planets@.len(),
        forall|p: int| 0 <= p < final(game_map).state.planets@.len()
            ==> (#[trigger] final(game_map).state.planets@[p]).capacity_ok(),
        final(ledger).wf(),
        final(ledger).len() == old(ledger).len(),
        r matches Some(c) ==> cmd_is_for(c, ship.id) && cmd_ranges_ok(c),
        r is None ==> final(game_map).state.planets == old(game_map).state.planets
            && ledger_unchanged(*old(ledger), *final(ledger)),
        best matches Move::DockMove(t, _) ==> {
            let p = old(game_map).state.planets@[t as int];
            let guards = dock_guards_pass(ship, p, enemies@, enemy_undocked_idx@, *old(ledger));
            &&& ledger_unchanged(*old(ledger), *final(ledger))
            &&& (!guards ==> r is None)
            &&& (guards && spec_dock_in_range(ship, p) ==> r == Some(Command::Dock(ship.id, p.id)))
            &&& (guards && !spec_dock_in_range(ship, p) ==> match r {
                    Some(c) => thrust_cmd_safe(c, ship, old(game_map).width as int, old(game_map).height as int,
                        crate::catalog::dock_catalog(old(game_map).state, old(game_map).my_id, ship.id)),
                    None => no_safe_candidate(old(game_map).width as int, old(game_map).height as int, ship.pos(),
                        crate::catalog::dock_catalog(old(game_map).state, old(game_map).my_id, ship.id)),
                })
            &&& (r is Some ==> final(game_map).state.planets@[t as int] == (Planet {
                        committed_ships: (p.committed_ships + 1) as i32, ..p })
                && (forall|q: int| 0 <= q < old(game_map).state.planets@.len() && q != t as int
                        ==> #[trigger] final(game_map).state.planets@[q] == old(game_map).state.planets@[q]))
        },
        best matches Move::RaidMove(t, _) ==> {
            let kam = spec_raid_is_kamikaze(ship, enemies@[t as int], old(game_map).state.players@);
            let cat = if kam {
                crate::catalog::kamikaze_catalog(old(game_map).state, old(game_map).my_id, ship.id)
            } else {
                crate::catalog::dock_catalog(old(game_map).state, old(game_map).my_id, ship.id)
            };
            &&& final(game_map).state.planets == old(game_map).state.planets
            &&& match r {
                Some(c) => thrust_cmd_safe(c, ship, old(game_map).width as int, old(game_map).height as int, cat)
                    && ledger_pledged(*old(ledger), *final(ledger), t as int, ship.hp),
                None => no_safe_candidate(old(game_map).width as int, old(game_map).height as int, ship.pos(), cat),
            }
        },
        best matches Move::DefendMove(t, _) ==> {
            &&& final(game_map).state.planets == old(game_map).state.planets
            &&& (my_docked@.len() == 0 ==> r == Some(Command::Stay)
                    && ledger_unchanged(*old(ledger), *final(ledger)))
            &&& (my_docked@.len() > 0 ==> match r {
                    Some(c) => thrust_cmd_safe(c, ship, old(game_map).width as int, old(game_map).height as int,
                            crate::catalog::defend_catalog(old(game_map).state, old(game_map).my_id, ship.id))
                        && ledger_pledged(*old(ledger), *final(ledger), t as int, ship.hp),
                    None => no_safe_candidate(old(game_map).width as int, old(game_map).height as int, ship.pos(),
                        crate::catalog::defend_catalog(old(game_map).state, old(game_map).my_id, ship.id)),
                })
        },
        best matches Move::InterceptMove(t, _) ==> {
            &&& final(game_map).state.planets == old(game_map).state.planets
            &&& match r {
                Some(c) => thrust_cmd_safe(c, ship, old(game_map).width as int, old(game_map).height as int,
                        crate::catalog::defend_catalog(old(game_map).state, old(game_map).my_id, ship.id))
                    && ledger_pledged(*old(ledger), *final(ledger), t as int, ship.hp),
                None => no_safe_candidate(old(game_map).width as int, old(game_map).height as int, ship.pos(),
                    crate::catalog::defend_catalog(old(game_map).state, old(game_map).my_id, ship.id)),
            }
        },
{
    match best {
        Move::DockMove(t, _) => {
            let ppos: Position;
            let peff: i64;
            let pspots: i32;
            let pcommitted: i32;
            let pdocked_len: usize;
            let pturns: i64;
            let pid: i32;
            {
                let planet = &game_map.state.planets[t];
                ppos = planet.position;
                peff = planet.get_radius();
                pspots = planet.num_docking_spots;
                pcommitted = planet.committed_ships;
                pdocked_len = planet.docked_ships.len();
                pturns = planet.turns_until_spawn();
                pid = planet.id;
            }
            let dest = crate::navigate::closest_point_to(ship.get_position(), ppos, peff, FP_ONE);
            // a dock is hopeless while an uncommitted enemy raider is near
            let mut nearby = false;
            let nu = enemy_undocked_idx.len();
            let mut i: usize = 0;
            while i < nu
                invariant
                    i <= nu,
                    nearby <==> exists|k: int| 0 <= k < i
                        && #[trigger] raider_at(enemies@, enemy_undocked_idx@, *ledger, dest, k),
                decreases nu - i,
            {
                let ei = enemy_undocked_idx[i];
                let e = &enemies[ei];
                let mut here: bool = false;
                if crate::entities::distance_lt(e.get_position(), dest, 35 * FP_ONE) {
                    if ledger.strength_at(ei) < 500 {
                        here = true;
                    }
                }
                proof {
                    assert(here == raider_at(enemies@, enemy_undocked_idx@, *ledger, dest, i as int));
                }
                if here {
                    nearby = true;
                }
                i = i + 1;
            }
            proof {
                assert(nearby == nearby_uncommitted_raider(enemies@, enemy_undocked_idx@, *ledger,
                    spec_dock_dest(ship, old(game_map).state.planets@[t as int])));
            }
            if pspots - (pcommitted + pdocked_len as i32) == 0 || nearby {
                return None;
            }
            // a dock is pointless when the planet spawns before arrival
            let surf = crate::value::surf_between_fp(ship.get_position(), SHIP_RADIUS, ppos, peff);
            if pturns * (MAX_SPEED * FP_ONE) < surf + DOCK_RADIUS {
                return None;
            }
            if crate::entities::distance_lt(ship.get_position(), ppos, DOCK_RADIUS + peff) {
                planet_commit_one(&mut game_map.state, t);
                return Some(Command::Dock(ship.id, pid));
            }
            let obstacles = game_map.obstacles_for_dock(&ship);
            proof {
                crate::catalog::lemma_catalog_ok(game_map.state, game_map.my_id, obstacles@, ship.id);
            }
            match ship.smart_navigate(&dest, game_map, obstacles) {
                Some((speed, angle)) => {
                    planet_commit_one(&mut game_map.state, t);
                    Some(Command::Thrust(ship.id, speed, angle))
                }
                None => None,
            }
        }
        Move::RaidMove(t, _) => {
            let enemy = enemies[t];
            let surf = crate::value::surf_between_fp(
                ship.get_position(), SHIP_RADIUS, enemy.get_position(), SHIP_RADIUS);
            let pd = ship.projected_damage_taken(game_map);
            let dest = enemy.get_position();
            if surf < MAX_SPEED * FP_ONE && pd >= ship.hp as i64 {
                // doomed anyway: ram the target, ignoring weapon ranges
                let obstacles = game_map.obstacles_for_raid_kamikaze(&ship);
                proof {
                    crate::catalog::lemma_catalog_ok(game_map.state, game_map.my_id, obstacles@, ship.id);
                }
                match ship.smart_navigate(&dest, game_map, obstacles) {
                    Some((speed, angle)) => {
                        ledger_add_guarded(ledger, t, ship.hp);
                        Some(Command::Thrust(ship.id, speed, angle))
                    }
                    None => None,
                }
            } else {
                let obstacles = game_map.obstacles_for_raid(&ship);
                proof {
                    crate::catalog::lemma_catalog_ok(game_map.state, game_map.my_id, obstacles@, ship.id);
                }
                match ship.smart_navigate(&dest, game_map, obstacles) {
                    Some((speed, angle)) => {
                        ledger_add_guarded(ledger, t, ship.hp);
                        Some(Command::Thrust(ship.id, speed, angle))
                    }
                    None => None,
                }
            }
        }
        Move::DefendMove(t, _) => {
            if my_docked.len() == 0 {
                // nothing to defend: hold position rather than chase
                Some(Command::Stay)
            } else {
                let enemy = enemies[t];
                let ndi = crate::value::nearest_ship(my_docked, enemy.get_position());
                let d = my_docked[ndi];
                let dx: i64 = enemy.position.0 - d.position.0;
                let dy: i64 = enemy.position.1 - d.position.1;
                let mag = crate::entities::distance_fp(d.get_position(), enemy.get_position());
                let dest: Position;
                if mag == 0 {
                    dest = d.get_position();
                } else {
                    proof {
                        lemma_component_le_dist(dx as int, dy as int, mag as int);
                        crate::navigate::lemma_muldiv_unit_bound(dx as int, FP_ONE as int, mag as int);
                        crate::navigate::lemma_muldiv_unit_bound(dy as int, FP_ONE as int, mag as int);
                        crate::geom::lemma_mul_bound(dx as int, FP_ONE as int, 300_000_000, 10_000);
                        crate::geom::lemma_mul_bound(dy as int, FP_ONE as int, 300_000_000, 10_000);
                    }
                    let ox = crate::navigate::muldiv_fp(dx, FP_ONE, mag);
                    let oy = crate::navigate::muldiv_fp(dy, FP_ONE, mag);
                    if relevant_opponents > 1 {
                        // stand one unit out from the ward, facing the aggressor
                        dest = Position(d.position.0 + ox, d.position.1 + oy);
                    } else {
                        // interpose one unit short of the aggressor
                        dest = Position(enemy.position.0 - ox, enemy.position.1 - oy);
                    }
                }
                let dest = Position(
                    crate::navigate::clamp_coord_fp(dest.0),
                    crate::navigate::clamp_coord_fp(dest.1),
                );
                let obstacles = game_map.obstacles_for_defend(&ship);
                proof {
                    crate::catalog::lemma_catalog_ok(game_map.state, game_map.my_id, obstacles@, ship.id);
                }
                match ship.smart_navigate(&dest, game_map, obstacles) {
                    Some((speed, angle)) => {
                        ledger_add_guarded(ledger, t, ship.hp);
                        Some(Command::Thrust(ship.id, speed, angle))
                    }
                    None => None,
                }
            }
        }
        Move::InterceptMove(t, _) => {
            let enemy = enemies[t];
            let dest = enemy.get_position();
            let obstacles = game_map.obstacles_for_intercept(&ship);
            proof {
                crate::catalog::lemma_catalog_ok(game_map.state, game_map.my_id, obstacles@, ship.id);
            }
            match ship.smart_navigate(&dest, game_map, obstacles) {
                Some((speed, angle)) => {
                    ledger_add_guarded(ledger, t, ship.hp);
                    Some(Command::Thrust(ship.id, speed, angle))
                }
                None => None,
            }
        }
    }
}

/// A displacement component never exceeds the floor square root of
/// the squared displacement length.
proof fn lemma_component_le_dist(dx: int, dy: int, mag: int)
    requires
        crate::entities::is_sqrt_floor(mag, dx * dx + dy * dy),
    ensures
        -mag <= dx <= mag,
        -mag <= dy <= mag,
{
    if dx > mag {
        assert((mag + 1) * (mag + 1) <= dx * dx) by (nonlinear_arith)
            requires 0 <= mag && mag + 1 <= dx;
        assert(dy * dy >= 0) by (nonlinear_arith);
        assert(false);
    }
    if dx < -mag {
        assert((mag + 1) * (mag + 1) <= dx * dx) by (nonlinear_arith)
            requires 0 <= mag && dx <= -(mag + 1);
        assert(dy * dy >= 0) by (nonlinear_arith);
        assert(false);
    }
    if dy > mag {
        assert((mag + 1) * (mag + 1) <= dy * dy) by (nonlinear_arith)
            requires 0 <= mag && mag + 1 <= dy;
        assert(dx * dx >= 0) by (nonlinear_arith);
        assert(false);
    }
    if dy < -mag {
        assert((mag + 1) * (mag + 1) <= dy * dy) by (nonlinear_arith)
            requires 0 <= mag && dy <= -(mag + 1);
        assert(dx * dx >= 0) by (nonlinear_arith);
        assert(false);
    }
}

/// The ships of a list that belong to one player, in order.
pub open spec fn ships_of_owner(ships: Seq<Ship>, owner: i32) -> Seq<Ship>
    decreases ships.len(),
{
    if ships.len() == 0 {
        Seq::empty()
    } else {
        let rest = ships_of_owner(ships.drop_last(), owner);
        if ships.last().owner_id == owner {
            rest.push(ships.last())
        } else {
            rest
        }
    }
}

/// Hunts one player down: routes for that player's nearest ship,
/// treating the hunted ships as no obstacle at all.  Nothing of that
/// player left on the map is no command; otherwise `None` exactly
/// when no candidate thrust is safe against the eradication catalog.
#[verifier::rlimit(100)]
pub fn eradicate(ship: &Ship, game_map: &GameMap, player_id: i32) -> (r: Option<Command>)
    requires
        game_map.wf(),
        ship.wf(),
    ensures
        r matches Some(c) ==> cmd_is_for(c, ship.id) && cmd_ranges_ok(c)
            && thrust_cmd_safe(c, *ship, game_map.width as int, game_map.height as int,
                crate::catalog::eradicate_catalog(game_map.state, game_map.my_id, ship.id, player_id)),
        ({
            let hunted = ships_of_owner(
                side_ships_seq(game_map.state.players@, game_map.my_id, false), player_id);
            &&& (hunted.len() == 0 ==> r is None)
            &&& (hunted.len() > 0 ==> (r is None <==> no_safe_candidate(
                    game_map.width as int, game_map.height as int, ship.pos(),
                    crate::catalog::eradicate_catalog(game_map.state, game_map.my_id, ship.id, player_id))))
            &&& (hunted.len() > 0 ==> {
                let dest = hunted[crate::value::nearest_idx(hunted, ship.pos())].pos();
                let ds = crate::navigate::direct_speed(ship.pos(), dest);
                let bh = crate::navigate::best_heading(dest.0 - ship.pos().0, dest.1 - ship.pos().1);
                (crate::catalog::no_stat_hit(game_map.state, ship.pos(), dest, FUDGE as int)
                    && crate::navigate::candidate_safe(game_map.width as int, game_map.height as int,
                            ship.pos(), ds, bh,
                            crate::catalog::eradicate_catalog(game_map.state, game_map.my_id, ship.id, player_id)))
                    ==> r == Some(Command::Thrust(ship.id, ds as i32, bh as i32))
            })
        }),
{
    let enemies = game_map.enemy_ships();
    proof {
        lemma_side_ships_wf(game_map.state.players@, game_map.my_id, false);
    }
    let n = enemies.len();
    let mut targets: Vec<Ship> = Vec::new();
    let mut i: usize = 0;
    while i < n
        invariant
            i <= n,
            n == enemies@.len(),
            targets@ == ships_of_owner(enemies@.take(i as int), player_id),
            targets@.len() <= i,
            forall|k: int| 0 <= k < targets@.len() ==> (#[trigger] targets@[k]).wf(),
        decreases n - i,
    {
        proof {
            assert(enemies@.take(i as int + 1).drop_last() =~= enemies@.take(i as int));
            assert(enemies@.take(i as int + 1).last() == enemies@[i as int]);
        }
        if enemies[i].owner_id == player_id {
            proof {
                assert(enemies@[i as int].wf());
            }
            targets.push(enemies[i]);
        }
        i = i + 1;
    }
    proof {
        assert(enemies@.take(n as int) =~= enemies@);
    }
    if targets.len() == 0 {
        return None;
    }
    let ndi = crate::value::nearest_ship(&targets, ship.get_position());
    let destination = targets[ndi].get_position();
    let obstacles = game_map.obstacles_for_eradicate(ship, player_id);
    proof {
        crate::catalog::lemma_catalog_ok_sparing(game_map.state, game_map.my_id, obstacles@, ship.id, player_id);
    }
    match ship.smart_navigate(&destination, game_map, obstacles) {
        Some((speed, angle)) => Some(Command::Thrust(ship.id, speed, angle)),
        None => None,
    }
}

/// The edge point a fleeing unit runs for: the sector of the map the
/// unit sits in, cut by the diagonals through the centre, names one
/// edge, and the destination sits on it just inside the margins.
pub open spec fn flee_destination(gm: GameMap, ship: Ship) -> Position {
    let cx = gm.width as int / 2;
    let cy = gm.height as int / 2;
    let rx = ship.pos().0 as int - cx;
    let ry = ship.pos().1 as int - cy;
    let ax = if rx < 0 { -rx } else { rx };
    let ay = if ry < 0 { -ry } else { ry };
    if ry >= 0 && ry * cx >= ax * cy {
        Position((gm.width - 5_005) as i64, (gm.height - 17_000) as i64)
    } else if rx < 0 && (-rx) * cy >= ay * cx {
        Position(17_000i64, (gm.height - 5_005) as i64)
    } else if ry < 0 && (-ry) * cx >= ax * cy {
        Position(5_005i64, 17_000i64)
    } else {
        Position((gm.width - 17_000) as i64, 5_005i64)
    }
}

/// Picks the flight destination of `flee_destination` -- the map edge
/// on the unit's side of the diagonals -- then asks the navigator for
/// a safe route to it: the command a unit uses to run for the edge
/// when the fleet is overmatched.  `None` exactly when no candidate
/// thrust is safe against the flee catalog.
#[verifier::rlimit(100)]
pub fn flee(ship: &Ship, game_map: &GameMap) -> (r: Option<Command>)
    requires
        game_map.wf(),
        ship.wf(),
    ensures
        r matches Some(c) ==> cmd_is_for(c, ship.id) && cmd_ranges_ok(c)
            && thrust_cmd_safe(c, *ship, game_map.width as int, game_map.height as int,
                crate::catalog::dock_catalog(game_map.state, game_map.my_id, ship.id)),
        r is None <==> no_safe_candidate(game_map.width as int, game_map.height as int, ship.pos(),
            crate::catalog::dock_catalog(game_map.state, game_map.my_id, ship.id)),
        ({
            let dest = flee_destination(*game_map, *ship);
            let ds = crate::navigate::direct_speed(ship.pos(), dest);
            let bh = crate::navigate::best_heading(dest.0 - ship.pos().0, dest.1 - ship.pos().1);
            (crate::catalog::no_stat_hit(game_map.state, ship.pos(), dest, FUDGE as int)
                && crate::navigate::candidate_safe(game_map.width as int, game_map.height as int,
                        ship.pos(), ds, bh,
                        crate::catalog::dock_catalog(game_map.state, game_map.my_id, ship.id)))
                ==> r == Some(Command::Thrust(ship.id, ds as i32, bh as i32))
        }),
{
    let margin: i64 = 17_000;
    let small: i64 = SHIP_RADIUS + FUDGE;
    let c = game_map.center();
    let rx: i64 = ship.position.0 - c.0;
    let ry: i64 = ship.position.1 - c.1;
    let ax: i64 = if rx < 0 { -rx } else { rx };
    let ay: i64 = if ry < 0 { -ry } else { ry };
    proof {
        crate::geom::lemma_mul_bound(ry as int, c.0 as int, 200_000_000, 10_000_000);
        crate::geom::lemma_mul_bound(ax as int, c.1 as int, 200_000_000, 10_000_000);
        crate::geom::lemma_mul_bound(rx as int, c.1 as int, 200_000_000, 10_000_000);
        crate::geom::lemma_mul_bound(ay as int, c.0 as int, 200_000_000, 10_000_000);
    }
    let dest: Position = if ry >= 0 && ry * c.0 >= ax * c.1 {
        // southern sector: bottom edge
        Position(game_map.width - small, game_map.height - margin)
    } else if rx < 0 && (-rx) * c.1 >= ay * c.0 {
        // western sector: left edge
        Position(margin, game_map.height - small)
    } else if ry < 0 && (-ry) * c.0 >= ax * c.1 {
        // northern sector: top edge
        Position(small, margin)
    } else {
        // eastern sector: right edge
        Position(game_map.width - margin, small)
    };
    proof {
        assert(dest == flee_destination(*game_map, *ship));
    }
    let obstacles = game_map.obstacles_for_flee(ship);
    proof {
        crate::catalog::lemma_catalog_ok(game_map.state, game_map.my_id, obstacles@, ship.id);
    }
    match ship.smart_navigate(&dest, game_map, obstacles) {
        Some((speed, angle)) => Some(Command::Thrust(ship.id, speed, angle)),
        None => None,
    }
}

/// How many command slots are still empty.
pub open spec fn count_none(s: Seq<Option<Command>>) -> int
    decreases s.len(),
{
    if s.len() == 0 {
        0
    } else {
        count_none(s.drop_last()) + if s.last() is None { 1int } else { 0 }
    }
}

proof fn lemma_count_none_bounds(s: Seq<Option<Command>>)
    ensures
        0 <= count_none(s) <= s.len(),
    decreases s.len(),
{
    if s.len() > 0 {
        lemma_count_none_bounds(s.drop_last());
    }
}

/// Filling an empty slot empties the count by one.
proof fn lemma_count_none_update(s: Seq<Option<Command>>, i: int, c: Command)
    requires
        0 <= i < s.len(),
        s[i] is None,
    ensures
        count_none(s.update(i, Some(c))) == count_none(s) - 1,
    decreases s.len(),
{
    if i == s.len() - 1 {
        assert(s.update(i, Some(c)).drop_last() =~= s.drop_last());
    } else {
        assert(s.update(i, Some(c)).drop_last() =~= s.drop_last().update(i, Some(c)));
        lemma_count_none_update(s.drop_last(), i, c);
    }
}

fn count_none_exec(s: &Vec<Option<Command>>) -> (n: usize)
    ensures
        n == count_none(s@),
{
    proof { lemma_count_none_bounds(s@); }
    let len = s.len();
    let mut n: usize = 0;
    let mut i: usize = 0;
    while i < len
        invariant
            i <= len,
            n == count_none(s@.take(i as int)),
            n <= i,
        decreases len - i,
    {
        proof {
            assert(s@.take(i as int + 1).drop_last() =~= s@.take(i as int));
            assert(s@.take(i as int + 1).last() == s@[i as int]);
        }
        if s[i].is_none() {
            n = n + 1;
        }
        i = i + 1;
    }
    proof {
        assert(s@.take(len as int) =~= s@);
    }
    n
}

/// The total number of active candidates across all units.
pub open spec fn sum_active(sms: Seq<ShipMoves>) -> int
    decreases sms.len(),
{
    if sms.len() == 0 {
        0
    } else {
        sum_active(sms.drop_last()) + sms.last().active_total()
    }
}

proof fn lemma_sum_active_nonneg(sms: Seq<ShipMoves>)
    ensures
        sum_active(sms) >= 0,
    decreases sms.len(),
{
    if sms.len() > 0 {
        lemma_sum_active_nonneg(sms.drop_last());
    }
}

/// Swapping one unit's state moves the total by the difference.
proof fn lemma_sum_active_update(sms: Seq<ShipMoves>, i: int, x: ShipMoves)
    requires
        0 <= i < sms.len(),
    ensures
        sum_active(sms.update(i, x)) == sum_active(sms) - sms[i].active_total() + x.active_total(),
    decreases sms.len(),
{
    if i == sms.len() - 1 {
        assert(sms.update(i, x).drop_last() =~= sms.drop_last());
    } else {
        assert(sms.update(i, x).drop_last() =~= sms.drop_last().update(i, x));
        lemma_sum_active_update(sms.drop_last(), i, x);
    }
}

/// A property of every element of two lists holds of every element of
/// two lists carrying the same elements between them.
proof fn lemma_all_transfer_pair(a1: Seq<Move>, a2: Seq<Move>, b1: Seq<Move>, b2: Seq<Move>, p: spec_fn(Move) -> bool)
    requires
        forall|i: int| 0 <= i < a1.len() ==> p(#[trigger] a1[i]),
        forall|i: int| 0 <= i < a2.len() ==> p(#[trigger] a2[i]),
        b1.to_multiset().add(b2.to_multiset()) == a1.to_multiset().add(a2.to_multiset()),
    ensures
        forall|i: int| 0 <= i < b1.len() ==> p(#[trigger] b1[i]),
        forall|i: int| 0 <= i < b2.len() ==> p(#[trigger] b2[i]),
{
    broadcast use vstd::seq_lib::group_to_multiset_ensures;
    broadcast use vstd::multiset::group_multiset_axioms;
    assert forall|i: int| 0 <= i < b1.len() implies p(#[trigger] b1[i]) by {
        assert(b1.contains(b1[i]));
        assert(b1.to_multiset().count(b1[i]) > 0);
        assert(b1.to_multiset().add(b2.to_multiset()).count(b1[i]) > 0);
        assert(a1.to_multiset().count(b1[i]) > 0 || a2.to_multiset().count(b1[i]) > 0);
        if a1.to_multiset().count(b1[i]) > 0 {
            assert(a1.contains(b1[i]));
            let j = choose|j: int| 0 <= j < a1.len() && a1[j] == b1[i];
            assert(p(a1[j]));
        } else {
            assert(a2.contains(b1[i]));
            let j = choose|j: int| 0 <= j < a2.len() && a2[j] == b1[i];
            assert(p(a2[j]));
        }
    }
    assert forall|i: int| 0 <= i < b2.len() implies p(#[trigger] b2[i]) by {
        assert(b2.contains(b2[i]));
        assert(b2.to_multiset().count(b2[i]) > 0);
        assert(b1.to_multiset().add(b2.to_multiset()).count(b2[i]) > 0);
        assert(a1.to_multiset().count(b2[i]) > 0 || a2.to_multiset().count(b2[i]) > 0);
        if a1.to_multiset().count(b2[i]) > 0 {
            assert(a1.contains(b2[i]));
            let j = choose|j: int| 0 <= j < a1.len() && a1[j] == b2[i];
            assert(p(a1[j]));
        } else {
            assert(a2.contains(b2[i]));
            let j = choose|j: int| 0 <= j < a2.len() && a2[j] == b2[i];
            assert(p(a2[j]));
        }
    }
}

/// A unit's allocation state stays valid when its lists are shuffled
/// without gaining or losing elements.
proof fn lemma_lists_ok_from_multisets(a: ShipMoves, b: ShipMoves, np: int, ne: int)
    requires
        a.lists_ok(np, ne),
        b.ship == a.ship,
        forall|k: MoveType| (#[trigger] b.list_of(k)).to_multiset().add(retired_of(b, k).to_multiset())
            == a.list_of(k).to_multiset().add(retired_of(a, k).to_multiset()),
        b.active_total() + b.retired_total() <= 400_000,
    ensures
        b.lists_ok(np, ne),
{
    assert(b.list_of(MoveType::DockMove).to_multiset().add(retired_of(b, MoveType::DockMove).to_multiset())
        == a.list_of(MoveType::DockMove).to_multiset().add(retired_of(a, MoveType::DockMove).to_multiset()));
    assert(b.list_of(MoveType::RaidMove).to_multiset().add(retired_of(b, MoveType::RaidMove).to_multiset())
        == a.list_of(MoveType::RaidMove).to_multiset().add(retired_of(a, MoveType::RaidMove).to_multiset()));
    assert(b.list_of(MoveType::DefendMove).to_multiset().add(retired_of(b, MoveType::DefendMove).to_multiset())
        == a.list_of(MoveType::DefendMove).to_multiset().add(retired_of(a, MoveType::DefendMove).to_multiset()));
    assert(b.list_of(MoveType::InterceptMove).to_multiset().add(retired_of(b, MoveType::InterceptMove).to_multiset())
        == a.list_of(MoveType::InterceptMove).to_multiset().add(retired_of(a, MoveType::InterceptMove).to_multiset()));
    lemma_all_transfer_pair(a.dock_moves@, a.deqd_dock_moves@, b.dock_moves@, b.deqd_dock_moves@,
        |m: Move| m.valid(np, ne) && m.spec_move_type() == MoveType::DockMove);
    lemma_all_transfer_pair(a.raid_moves@, a.deqd_raid_moves@, b.raid_moves@, b.deqd_raid_moves@,
        |m: Move| m.valid(np, ne) && m.spec_move_type() == MoveType::RaidMove);
    lemma_all_transfer_pair(a.defend_moves@, a.deqd_defend_moves@, b.defend_moves@, b.deqd_defend_moves@,
        |m: Move| m.valid(np, ne) && m.spec_move_type() == MoveType::DefendMove);
    lemma_all_transfer_pair(a.intercept_moves@, a.deqd_intercept_moves@, b.intercept_moves@, b.deqd_intercept_moves@,
        |m: Move| m.valid(np, ne) && m.spec_move_type() == MoveType::InterceptMove);
}

/// The fixed frame the allocator preserves: the snapshot stays
/// well-formed on the same world, every planet keeps its capacity
/// invariant, and this bot's ships keep their identities and statuses.
pub open spec fn turn_state_ok(gm: GameMap, gm0: GameMap, my_pi: int, np: int) -> bool {
    &&& gm.wf()
    &&& gm.my_id == gm0.my_id
    &&& gm.width == gm0.width
    &&& gm.height == gm0.height
    &&& gm.state.players@.len() == gm0.state.players@.len()
    &&& gm.state.planets@.len() == np
    &&& (forall|p: int| 0 <= p < np ==> (#[trigger] gm.state.planets@[p]).capacity_ok())
    &&& 0 <= my_pi < gm.state.players@.len()
    &&& gm.state.players@[my_pi].ships@.len() == gm0.state.players@[my_pi].ships@.len()
    &&& (forall|s: int| 0 <= s < gm.state.players@[my_pi].ships@.len()
            ==> (#[trigger] gm.state.players@[my_pi].ships@[s]).id
                    == gm0.state.players@[my_pi].ships@[s].id
                && gm.state.players@[my_pi].ships@[s].docking_status
                    == gm0.state.players@[my_pi].ships@[s].docking_status)
}

/// The allocator's constant frame: the preserved state plus the
/// turn-opening facts every stage relies on.
pub open spec fn turn_frame_ok(gm: GameMap, gm0: GameMap, my_pi: int, np: int, my_ships0: Seq<Ship>, configs: Configs) -> bool {
    &&& turn_state_ok(gm, gm0, my_pi, np)
    &&& my_pi == gm0.my_id as int
    &&& 0 <= gm0.my_id
    &&& (gm0.my_id as int) < gm0.state.players@.len()
    &&& gm0.state.players@[my_pi].id == gm0.my_id
    &&& my_ships0 == gm0.state.players@[my_pi].ships@
    &&& configs.wf()
    &&& 1 <= np
    &&& np == gm0.state.planets@.len()
}

/// Every filled command slot belongs to its ship and is in range.
pub open spec fn cmds_ok(cmds: Seq<Option<Command>>, ships: Seq<Ship>) -> bool {
    cmds.len() == ships.len()
    && (forall|k: int| 0 <= k < cmds.len()
        ==> ((#[trigger] cmds[k]) matches Some(c) ==> cmd_is_for(c, ships[k].id) && cmd_ranges_ok(c)))
}

/// Every per-unit allocation state is coherent and names one of this
/// bot's free ships.
pub open spec fn moves_list_ok(sms: Seq<ShipMoves>, np: int, ne: int, ships0: Seq<Ship>) -> bool {
    forall|j: int| 0 <= j < sms.len() ==> {
        &&& (#[trigger] sms[j]).wf(np, ne)
        &&& sms[j].ship_index < ships0.len()
        &&& sms[j].ship.wf()
        &&& sms[j].ship.id == ships0[sms[j].ship_index as int].id
        &&& ships0[sms[j].ship_index as int].docking_status == DockingStatus::UNDOCKED
    }
}

/// One whole turn of the greedy allocator.
///
/// Every enemy free ship first gets a predicted velocity.  Then the
/// allocator repeatedly commits the globally best pending candidate,
/// rescoring everything after each commit, retiring candidates that
/// cannot be realized, and forcing a unit to stay once its attempt
/// budget is spent.  When the deadline passes or nothing can move,
/// every unit still pending is forced to stay, so the turn always
/// ends with exactly one command per unit, and no planet is ever
/// pledged past its docking capacity.
#[verifier::rlimit(100)]
#[verifier::loop_isolation(true)]
pub fn run_turn(
    game_map: &mut GameMap,
    configs: &Configs,
    relevant_opponents: usize,
    should_flee: bool,
    clock: &crate::game::TurnClock,
) -> (commands: Vec<Command>)
    requires
        old(game_map).wf(),
        configs.wf(),
        0 <= old(game_map).my_id,
        (old(game_map).my_id as int) < old(game_map).state.players@.len(),
        old(game_map).state.players@[old(game_map).my_id as int].id == old(game_map).my_id,
        1 <= old(game_map).state.planets@.len(),
        forall|p: int| 0 <= p < old(game_map).state.planets@.len()
            ==> (#[trigger] old(game_map).state.planets@[p]).capacity_ok(),
    ensures
        final(game_map).wf(),
        final(game_map).state.planets@.len() == old(game_map).state.planets@.len(),
        forall|p: int| 0 <= p < final(game_map).state.planets@.len()
            ==> (#[trigger] final(game_map).state.planets@[p]).capacity_ok(),
        commands@.len() == old(game_map).state.players@[old(game_map).my_id as int].ships@.len(),
        forall|k: int| 0 <= k < commands@.len()
            ==> cmd_is_for(#[trigger] commands@[k],
                    old(game_map).state.players@[old(game_map).my_id as int].ships@[k].id)
                && cmd_ranges_ok(commands@[k]),
        final(game_map).state.players@[old(game_map).my_id as int].ships@.len() == commands@.len(),
        forall|k: int| 0 <= k < commands@.len()
            ==> (#[trigger] final(game_map).state.players@[old(game_map).my_id as int].ships@[k]).command
                == Some(commands@[k]),
{
    let ghost gm0 = *old(game_map);
    let my_pi: usize = game_map.my_id as usize;
    let np = game_map.state.planets.len();
    let ghost my_ships0 = gm0.state.players@[my_pi as int].ships@;

    // predict enemy free ships to run at their nearest target
    let my_snapshot = game_map.my_ships();
    proof {
        lemma_side_ships_wf(game_map.state.players@, game_map.my_id, true);
    }
    let n_players = game_map.state.players.len();
    if my_snapshot.len() > 0 {
        let mut pi: usize = 0;
        while pi < n_players
            invariant
                pi <= n_players,
                n_players == game_map.state.players@.len(),
                turn_frame_ok(*game_map, gm0, my_pi as int, np as int, my_ships0, *configs),
                game_map.state.players@[my_pi as int] == gm0.state.players@[my_pi as int],
                my_snapshot@.len() > 0,
                forall|i: int| 0 <= i < my_snapshot@.len() ==> (#[trigger] my_snapshot@[i]).wf(),
            decreases n_players - pi,
        {
            if game_map.state.players[pi].id != game_map.my_id {
                let ns = game_map.state.players[pi].ships.len();
                let mut si: usize = 0;
                while si < ns
                    invariant
                        si <= ns,
                        pi < n_players,
                        n_players == game_map.state.players@.len(),
                        ns == game_map.state.players@[pi as int].ships@.len(),
                        turn_frame_ok(*game_map, gm0, my_pi as int, np as int, my_ships0, *configs),
                        game_map.state.players@[my_pi as int] == gm0.state.players@[my_pi as int],
                        game_map.state.players@[pi as int].id != gm0.my_id,
                        my_snapshot@.len() > 0,
                        forall|i: int| 0 <= i < my_snapshot@.len() ==> (#[trigger] my_snapshot@[i]).wf(),
                    decreases ns - si,
                {
                    let s = game_map.state.players[pi].ships[si];
                    proof {
                        assert(game_map.state.players@[pi as int].wf());
                        assert(s.wf());
                    }
                    if s.is_undocked() {
                        let ndi = crate::value::nearest_ship(&my_snapshot, s.get_position());
                        let target = my_snapshot[ndi].get_position();
                        let (speed, angle) = s.route_to(&target, game_map);
                        let (vx, vy) = crate::navigate::candidate_velocity(speed as i64, angle as u16);
                        set_ship_velocity_at(&mut game_map.state, pi, si, vx, vy);
                    }
                    si = si + 1;
                }
            }
            pi = pi + 1;
        }
    }

    // open the turn: enemy lists, the empty ledger, and the slots
    let enemies = game_map.enemy_ships();
    proof {
        lemma_side_ships_wf(game_map.state.players@, game_map.my_id, false);
    }
    let ne = enemies.len();
    let mut ledger = CommitmentLedger::new(ne);

    let mut planets_to_dock: Vec<usize> = Vec::new();
    let mut t: usize = 0;
    while t < np
        invariant
            t <= np,
            turn_frame_ok(*game_map, gm0, my_pi as int, np as int, my_ships0, *configs),
            planets_to_dock@.len() <= t,
            forall|i: int| 0 <= i < planets_to_dock@.len() ==> (#[trigger] planets_to_dock@[i]) < np,
        decreases np - t,
    {
        let p = &game_map.state.planets[t];
        let wanted: bool = match p.owner {
            Option::Some(o) => o == game_map.my_id && p.open_docks() > 0,
            Option::None => true,
        };
        if wanted {
            planets_to_dock.push(t);
        }
        t = t + 1;
    }

    let mut enemy_docked_idx: Vec<usize> = Vec::new();
    let mut enemy_undocked_idx: Vec<usize> = Vec::new();
    let mut e: usize = 0;
    while e < ne
        invariant
            e <= ne,
            ne == enemies@.len(),
            enemy_docked_idx@.len() <= e,
            enemy_undocked_idx@.len() <= e,
            forall|i: int| 0 <= i < enemy_docked_idx@.len() ==> (#[trigger] enemy_docked_idx@[i]) < ne,
            forall|i: int| 0 <= i < enemy_undocked_idx@.len() ==> (#[trigger] enemy_undocked_idx@[i]) < ne,
        decreases ne - e,
    {
        if enemies[e].is_undocked() {
            enemy_undocked_idx.push(e);
        } else {
            enemy_docked_idx.push(e);
        }
        e = e + 1;
    }

    let m = game_map.state.players[my_pi].ships.len();
    let mut cmds: Vec<Option<Command>> = Vec::new();
    let mut ships_to_order: Vec<usize> = Vec::new();
    let mut my_docked: Vec<Ship> = Vec::new();
    let mut si: usize = 0;
    while si < m
        invariant
            si <= m,
            turn_frame_ok(*game_map, gm0, my_pi as int, np as int, my_ships0, *configs),
            m == game_map.state.players@[my_pi as int].ships@.len(),
            my_ships0 == gm0.state.players@[my_pi as int].ships@,
            cmds@.len() == si,
            cmds_ok(cmds@, my_ships0.take(si as int)),
            forall|k: int| 0 <= k < ships_to_order@.len()
                ==> (#[trigger] ships_to_order@[k]) < si
                    && my_ships0[ships_to_order@[k] as int].docking_status == DockingStatus::UNDOCKED
                    && cmds@[ships_to_order@[k] as int] is None,
            forall|k: int| 0 <= k < my_docked@.len() ==> (#[trigger] my_docked@[k]).wf(),
            my_docked@.len() <= si,
        decreases m - si,
    {
        let ship = game_map.state.players[my_pi].ships[si];
        if ship.is_undocked() {
            ships_to_order.push(si);
            cmds.push(None);
        } else if !ship.is_docked() {
            // mid-way through docking or undocking: the protocol
            // decides, the unit simply stays
            cmds.push(Some(Command::Stay));
            my_docked.push(ship);
        } else {
            cmds.push(None);
            my_docked.push(ship);
        }
        si = si + 1;
    }
    proof {
        assert(my_ships0.take(m as int) =~= my_ships0);
    }

    let sc = ships_to_order.len();
    let budget: i64 = if sc == 0 { 30 } else {
        let scl: i64 = if sc > 2000 { 2000 } else { sc as i64 };
        let q = 2000 / scl;
        if q > 30 { q } else { 30 }
    };
    let mut attempts: Vec<i64> = Vec::new();
    let mut a: usize = 0;
    while a < m
        invariant
            a <= m,
            budget >= 30,
            attempts@.len() == a,
            forall|k: int| 0 <= k < a ==> 0 <= (#[trigger] attempts@[k]) <= budget,
        decreases m - a,
    {
        attempts.push(0);
        a = a + 1;
    }

    // one allocation state per free unit, while time allows
    let mut all_ship_moves: Vec<ShipMoves> = Vec::new();
    let mut k: usize = 0;
    while k < sc
        invariant
            k <= sc,
            sc == ships_to_order@.len(),
            turn_frame_ok(*game_map, gm0, my_pi as int, np as int, my_ships0, *configs),
            m == game_map.state.players@[my_pi as int].ships@.len(),
            np == game_map.state.planets@.len(),
            ne == enemies@.len(),
            ne == ledger.len(),
            ledger.wf(),
            m == my_ships0.len(),
            forall|i: int| 0 <= i < enemies@.len() ==> (#[trigger] enemies@[i]).wf(),
            enemies@.len() <= 80_000,
            forall|i: int| 0 <= i < planets_to_dock@.len() ==> (#[trigger] planets_to_dock@[i]) < np,
            forall|i: int| 0 <= i < enemy_docked_idx@.len() ==> (#[trigger] enemy_docked_idx@[i]) < ne,
            forall|i: int| 0 <= i < enemy_undocked_idx@.len() ==> (#[trigger] enemy_undocked_idx@[i]) < ne,
            planets_to_dock@.len() <= np,
            enemy_docked_idx@.len() <= ne,
            enemy_undocked_idx@.len() <= ne,
            forall|i: int| 0 <= i < ships_to_order@.len()
                ==> (#[trigger] ships_to_order@[i]) < m
                    && my_ships0[ships_to_order@[i] as int].docking_status == DockingStatus::UNDOCKED,
            moves_list_ok(all_ship_moves@, np as int, ne as int, my_ships0),
        decreases sc - k,
    {
        if clock.soft_expired() {
            break;
        }
        let si = ships_to_order[k];
        let ship = game_map.state.players[my_pi].ships[si];
        proof {
            assert(ship.wf());
            assert(ship.id == my_ships0[si as int].id);
        }
        let sm = ShipMoves::new(ship, si, game_map, &planets_to_dock, &enemy_docked_idx,
            &enemy_undocked_idx, &enemies, &ledger, configs);
        all_ship_moves.push(sm);
        k = k + 1;
    }

    // the commit loop: globally best pending candidate first
    let mut uncommanded = count_none_exec(&cmds);
    let mut progress: bool = true;
    while uncommanded > 0 && progress
        invariant
            turn_frame_ok(*game_map, gm0, my_pi as int, np as int, my_ships0, *configs),
            m == game_map.state.players@[my_pi as int].ships@.len(),
            m == my_ships0.len(),
            np == game_map.state.planets@.len(),
            ne == enemies@.len(),
            ne == ledger.len(),
            ledger.wf(),
            forall|i: int| 0 <= i < enemies@.len() ==> (#[trigger] enemies@[i]).wf(),
            1 <= np,
            enemies@.len() <= 80_000,
            forall|i: int| 0 <= i < enemy_undocked_idx@.len() ==> (#[trigger] enemy_undocked_idx@[i]) < ne,
            forall|i: int| 0 <= i < my_docked@.len() ==> (#[trigger] my_docked@[i]).wf(),
            my_docked@.len() <= 80_000,
            cmds@.len() == m,
            cmds_ok(cmds@, my_ships0),
            uncommanded == count_none(cmds@),
            moves_list_ok(all_ship_moves@, np as int, ne as int, my_ships0),
            attempts@.len() == m,
            forall|i: int| 0 <= i < m ==> 0 <= (#[trigger] attempts@[i]) <= budget,
            budget >= 30,
        decreases count_none(cmds@), (if progress { 1int } else { 0int }),
    {
        progress = false;
        let ghost count_at_start = count_none(cmds@);
        if clock.soft_expired() {
            break;
        }

        // rescore every pending unit against the world as it now is
        let n_sm = all_ship_moves.len();
        let mut j: usize = 0;
        while j < n_sm
            invariant
                j <= n_sm,
                n_sm == all_ship_moves@.len(),
                turn_frame_ok(*game_map, gm0, my_pi as int, np as int, my_ships0, *configs),
                np == game_map.state.planets@.len(),
                1 <= np,
                ne == enemies@.len(),
                ne == ledger.len(),
                ledger.wf(),
                forall|i: int| 0 <= i < enemies@.len() ==> (#[trigger] enemies@[i]).wf(),
                moves_list_ok(all_ship_moves@, np as int, ne as int, my_ships0),
            decreases n_sm - j,
        {
            let smm = &mut all_ship_moves[j];
            smm.recombine_deqs();
            smm.recalculate_all_moves(game_map, &ledger, configs, &enemies);
            smm.sort_moves();
            if smm.remaining_moves() > 0 {
                smm.refresh_best_move();
            }
            j = j + 1;
        }

        // the retry loop: one commit, or one retirement at a time
        loop
            invariant
                turn_frame_ok(*game_map, gm0, my_pi as int, np as int, my_ships0, *configs),
                m == game_map.state.players@[my_pi as int].ships@.len(),
                m == my_ships0.len(),
                np == game_map.state.planets@.len(),
                1 <= np,
                ne == enemies@.len(),
                ne == ledger.len(),
                ledger.wf(),
                forall|i: int| 0 <= i < enemies@.len() ==> (#[trigger] enemies@[i]).wf(),
                enemies@.len() <= 80_000,
                forall|i: int| 0 <= i < enemy_undocked_idx@.len() ==> (#[trigger] enemy_undocked_idx@[i]) < ne,
                forall|i: int| 0 <= i < my_docked@.len() ==> (#[trigger] my_docked@[i]).wf(),
                my_docked@.len() <= 80_000,
                cmds@.len() == m,
                cmds_ok(cmds@, my_ships0),
                uncommanded == count_none(cmds@),
                moves_list_ok(all_ship_moves@, np as int, ne as int, my_ships0),
                attempts@.len() == m,
                forall|i: int| 0 <= i < m ==> 0 <= (#[trigger] attempts@[i]) <= budget,
                progress ==> count_none(cmds@) < count_at_start,
                !progress ==> count_none(cmds@) == count_at_start,
                uncommanded == count_none(cmds@),
            decreases sum_active(all_ship_moves@),
        {
            if clock.hard_expired() {
                break;
            }

            // a docked unit never enters valuation: it stays, or casts
            // off when the whole fleet is fleeing
            let mut docked_si: usize = 0;
            let mut found_docked: bool = false;
            let mut q: usize = 0;
            while q < m
                invariant
                    q <= m,
                    turn_frame_ok(*game_map, gm0, my_pi as int, np as int, my_ships0, *configs),
                    m == game_map.state.players@[my_pi as int].ships@.len(),
                    m == my_ships0.len(),
                    cmds@.len() == m,
                    found_docked ==> docked_si < m && cmds@[docked_si as int] is None
                        && game_map.state.players@[my_pi as int].ships@[docked_si as int].docking_status
                            == DockingStatus::DOCKED,
                decreases m - q,
            {
                if !found_docked {
                    let s = &game_map.state.players[my_pi].ships[q];
                    if s.is_docked() && cmds[q].is_none() {
                        docked_si = q;
                        found_docked = true;
                    }
                }
                q = q + 1;
            }
            if found_docked {
                let sid = game_map.state.players[my_pi].ships[docked_si].id;
                let cmd = if should_flee { Command::Undock(sid) } else { Command::Stay };
                proof {
                    lemma_count_none_update(cmds@, docked_si as int, cmd);
                    lemma_count_none_bounds(cmds@.update(docked_si as int, Some(cmd)));
                }
                cmds.set(docked_si, Some(cmd));
                uncommanded = uncommanded - 1;
                progress = true;
                break;
            }

            // the globally best pending unit with a candidate to spare
            let mut pick: usize = 0;
            let mut pick_v: i64 = 0;
            let mut found: bool = false;
            let n_sm2 = all_ship_moves.len();
            let mut j2: usize = 0;
            while j2 < n_sm2
                invariant
                    j2 <= n_sm2,
                    n_sm2 == all_ship_moves@.len(),
                    moves_list_ok(all_ship_moves@, np as int, ne as int, my_ships0),
                    cmds@.len() == m,
                    m == my_ships0.len(),
                    found ==> pick < n_sm2
                        && all_ship_moves@[pick as int].active_total() > 0
                        && cmds@[all_ship_moves@[pick as int].ship_index as int] is None,
                decreases n_sm2 - j2,
            {
                let sm = &all_ship_moves[j2];
                if sm.remaining_moves() > 0 && cmds[sm.ship_index].is_none() {
                    let v = sm.best_move().value();
                    if !found || v < pick_v {
                        pick = j2;
                        pick_v = v;
                        found = true;
                    }
                }
                j2 = j2 + 1;
            }
            if !found {
                break;
            }

            let sm_ship = all_ship_moves[pick].ship;
            let sm_si = all_ship_moves[pick].ship_index;
            let best = *all_ship_moves[pick].best_move();
            proof {
                let smg = all_ship_moves@[pick as int];
                assert(smg.wf(np as int, ne as int));
                assert(best == smg.list_of(smg.best_move).first());
                assert(best.valid(np as int, ne as int));
            }
            let cmd_opt = if should_flee {
                flee(&sm_ship, game_map)
            } else {
                try_move(best, sm_ship, game_map, &enemies, &enemy_undocked_idx, &my_docked,
                    relevant_opponents, &mut ledger)
            };
            match cmd_opt {
                Some(cmd) => {
                    proof {
                        lemma_count_none_update(cmds@, sm_si as int, cmd);
                        lemma_count_none_bounds(cmds@.update(sm_si as int, Some(cmd)));
                    }
                    cmds.set(sm_si, Some(cmd));
                    uncommanded = uncommanded - 1;
                    if let Command::Thrust(_, sp, an) = cmd {
                        let (vx, vy) = crate::navigate::candidate_velocity(sp as i64, an as u16);
                        set_ship_velocity_at(&mut game_map.state, my_pi, sm_si, vx, vy);
                    }
                    progress = true;
                    break;
                }
                None => {
                    let cur = attempts[sm_si];
                    let bumped: i64 = if cur >= budget { cur } else { cur + 1 };
                    attempts.set(sm_si, bumped);
                    if bumped >= budget {
                        // budget spent: this unit stays put for the turn
                        proof {
                            lemma_count_none_update(cmds@, sm_si as int, Command::Stay);
                            lemma_count_none_bounds(cmds@.update(sm_si as int, Some(Command::Stay)));
                        }
                        cmds.set(sm_si, Some(Command::Stay));
                        uncommanded = uncommanded - 1;
                        progress = true;
                        break;
                    } else {
                        let ghost pre_sms = all_ship_moves@;
                        let ghost pre_sm = all_ship_moves@[pick as int];
                        let smm = &mut all_ship_moves[pick];
                        smm.update_best_move();
                        proof {
                            lemma_lists_ok_from_multisets(pre_sm, all_ship_moves@[pick as int], np as int, ne as int);
                            lemma_sum_active_update(pre_sms, pick as int, all_ship_moves@[pick as int]);
                            lemma_sum_active_nonneg(all_ship_moves@);
                        }
                    }
                }
            }
        }
    }

    // the deadline or exhaustion sweep: whatever is still pending
    // holds position, and every slot is written back to its ship
    let mut out: Vec<Command> = Vec::new();
    let mut w: usize = 0;
    while w < m
        invariant
            w <= m,
            turn_frame_ok(*game_map, gm0, my_pi as int, np as int, my_ships0, *configs),
            m == game_map.state.players@[my_pi as int].ships@.len(),
            m == my_ships0.len(),
            cmds@.len() == m,
            cmds_ok(cmds@, my_ships0),
            out@.len() == w,
            forall|k2: int| 0 <= k2 < w
                ==> cmd_is_for(#[trigger] out@[k2], my_ships0[k2].id) && cmd_ranges_ok(out@[k2]),
            forall|k2: int| 0 <= k2 < w
                ==> (#[trigger] game_map.state.players@[my_pi as int].ships@[k2]).command == Some(out@[k2]),
        decreases m - w,
    {
        let cmd: Command = match cmds[w] {
            Some(c) => c,
            None => Command::Stay,
        };
        set_ship_command_at(&mut game_map.state, my_pi, w, cmd);
        out.push(cmd);
        w = w + 1;
    }
    out
}

/// How many opposing players field a fleet worth worrying about:
/// more than half this bot's own count, doubled.
pub open spec fn spec_relevant_opponents(players: Seq<Player>, my_id: i32, my_count: int) -> int
    decreases players.len(),
{
    if players.len() == 0 {
        0
    } else {
        let rest = spec_relevant_opponents(players.drop_last(), my_id, my_count);
        if players.last().id != my_id && 2 * players.last().ships@.len() > my_count {
            rest + 1
        } else {
            rest
        }
    }
}

/// The size of the largest opposing fleet.
pub open spec fn spec_strongest_enemy(players: Seq<Player>, my_id: i32) -> int
    decreases players.len(),
{
    if players.len() == 0 {
        0
    } else {
        let rest = spec_strongest_enemy(players.drop_last(), my_id);
        if players.last().id != my_id && players.last().ships@.len() > rest {
            players.last().ships@.len() as int
        } else {
            rest
        }
    }
}

/// Counts the opposing players whose fleets rival this bot's.
pub fn count_relevant_opponents(game_map: &GameMap) -> (n: usize)
    requires
        game_map.wf(),
    ensures
        n == spec_relevant_opponents(game_map.state.players@, game_map.my_id,
            side_ships_seq(game_map.state.players@, game_map.my_id, true).len() as int),
        n <= game_map.state.players@.len(),
{
    let mine = game_map.my_ships();
    let my_count = mine.len();
    let np = game_map.state.players.len();
    let mut n: usize = 0;
    let mut i: usize = 0;
    while i < np
        invariant
            i <= np,
            n <= i,
            n == spec_relevant_opponents(game_map.state.players@.take(i as int), game_map.my_id, my_count as int),
        decreases np - i,
    {
        proof {
            assert(game_map.state.players@.take(i as int + 1).drop_last()
                =~= game_map.state.players@.take(i as int));
            assert(game_map.state.players@.take(i as int + 1).last() == game_map.state.players@[i as int]);
        }
        let p = &game_map.state.players[i];
        if p.id != game_map.my_id && 2 * p.ships.len() > my_count {
            n = n + 1;
        }
        i = i + 1;
    }
    proof {
        assert(game_map.state.players@.take(np as int) =~= game_map.state.players@);
    }
    n
}

/// The preference multipliers for the opponent-count regime.
pub fn choose_configs(relevant_opponents: usize) -> (c: Configs)
    ensures
        c.wf(),
        relevant_opponents > 1 ==> c == (Configs {
            dock_preference: crate::consts::DOCK_PREFERENCE_4P,
            raid_preference: crate::consts::RAID_PREFERENCE_4P,
            defend_preference: crate::consts::DEFEND_PREFERENCE_4P,
            intercept_preference: crate::consts::INTERCEPT_PREFERENCE_4P,
        }),
        relevant_opponents <= 1 ==> c == (Configs {
            dock_preference: crate::consts::DOCK_PREFERENCE_2P,
            raid_preference: crate::consts::RAID_PREFERENCE_2P,
            defend_preference: crate::consts::DEFEND_PREFERENCE_2P,
            intercept_preference: crate::consts::INTERCEPT_PREFERENCE_2P,
        }),
{
    if relevant_opponents > 1 {
        Configs {
            dock_preference: crate::consts::DOCK_PREFERENCE_4P,
            raid_preference: crate::consts::RAID_PREFERENCE_4P,
            defend_preference: crate::consts::DEFEND_PREFERENCE_4P,
            intercept_preference: crate::consts::INTERCEPT_PREFERENCE_4P,
        }
    } else {
        Configs {
            dock_preference: crate::consts::DOCK_PREFERENCE_2P,
            raid_preference: crate::consts::RAID_PREFERENCE_2P,
            defend_preference: crate::consts::DEFEND_PREFERENCE_2P,
            intercept_preference: crate::consts::INTERCEPT_PREFERENCE_2P,
        }
    }
}

/// Whether the whole fleet should run for the edges: more than two
/// players remain and the strongest opposing fleet doubles this one.
pub fn should_flee_check(game_map: &GameMap) -> (r: bool)
    requires
        game_map.wf(),
    ensures
        r == (game_map.state.players@.len() > 2
            && spec_strongest_enemy(game_map.state.players@, game_map.my_id)
                > 2 * side_ships_seq(game_map.state.players@, game_map.my_id, true).len()),
{
    let mine = game_map.my_ships();
    let my_count = mine.len();
    let np = game_map.state.players.len();
    let mut strongest: usize = 0;
    let mut i: usize = 0;
    while i < np
        invariant
            i <= np,
            strongest == spec_strongest_enemy(game_map.state.players@.take(i as int), game_map.my_id),
            strongest <= 5_000,
        decreases np - i,
    {
        proof {
            assert(game_map.state.players@.take(i as int + 1).drop_last()
                =~= game_map.state.players@.take(i as int));
            assert(game_map.state.players@.take(i as int + 1).last() == game_map.state.players@[i as int]);
            assert(game_map.state.players@[i as int].wf());
        }
        let p = &game_map.state.players[i];
        if p.id != game_map.my_id && p.ships.len() > strongest {
            strongest = p.ships.len();
        }
        i = i + 1;
    }
    proof {
        assert(game_map.state.players@.take(np as int) =~= game_map.state.players@);
        lemma_side_ships_wf(game_map.state.players@, game_map.my_id, true);
    }
    np > 2 && strongest > 2 * my_count
}

/// The multiset of a concatenation is the sum of the parts'.
proof fn lemma_concat_multiset(a: Seq<Move>, b: Seq<Move>)
    ensures
        (a + b).to_multiset() == a.to_multiset().add(b.to_multiset()),
    decreases b.len(),
{
    broadcast use vstd::seq_lib::group_to_multiset_ensures;
    if b.len() == 0 {
        assert(a + b =~= a);
        assert(b.to_multiset() =~= Multiset::<Move>::empty());
        assert(a.to_multiset().add(b.to_multiset()) =~= a.to_multiset());
    } else {
        lemma_concat_multiset(a, b.drop_last());
        assert(a + b =~= (a + b.drop_last()).push(b.last()));
        assert(b =~= b.drop_last().push(b.last()));
        assert((a + b).to_multiset() =~= (a + b.drop_last()).to_multiset().insert(b.last()));
        assert(b.to_multiset() =~= b.drop_last().to_multiset().insert(b.last()));
        assert((a + b).to_multiset() =~= a.to_multiset().add(b.to_multiset()));
    }
}

} // verus!
