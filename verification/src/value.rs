//! Action valuation: pure scores for dock/raid/defend/intercept
//! candidates, lower meaning more preferred.
//!
//! Scores are fixed-point scalars on the `FP_ONE` scale.  Every score
//! is a function of the snapshot and the commitment ledger alone, and
//! each scoring function's contract pins its result to a specification
//! formula, so an unchanged world gives an identical score.  Products
//! saturate at `VALUE_CAP`, far above any score a real world produces.

use vstd::prelude::*;
use crate::consts::{FP_ONE, MAX_SPEED, MAX_SHIP_HEALTH, SHIP_RADIUS, WEAPON_RADIUS, WEAPON_DAMAGE, DOCK_TURNS};
use crate::entities::{Planet, Player, Position, Ship, position_ok, sqrt_floor, distance_sq, distance_fp, distance_lt};
use crate::catalog::{GameMap, all_ships_seq, side_ships_seq, lemma_all_ships_wf};
use crate::geom::dist_sq;

verus! {

/// Scores saturate here; far above anything a real world produces.
pub const VALUE_CAP: i64 = 1_000_000_000_000_000;

/// The score given to an action that is pointless right now.
pub const IDLE_SCORE: i64 = 99_990_000;

/// The score given to a dock candidate whose capacity is exhausted.
pub const EXHAUSTED_SCORE: i64 = 99_999_990_000;

/// The most pledged strength a score may weigh: ten full ships'
/// worth.  The disparity clamp keeps commitment weighting from
/// dominating raw value comparisons, however much is pledged.
pub const COMMITMENT_CLAMP: i64 = 100_000;

/// Fixed-point product of two non-negative scalars, saturating at the
/// cap.
pub open spec fn val_mul(x: int, y: int) -> int {
    let p = x * y / (FP_ONE as int);
    if p > VALUE_CAP as int { VALUE_CAP as int } else { p }
}

/// Fixed-point product, exactly as `val_mul`.
pub fn val_mul_fp(x: i64, y: i64) -> (r: i64)
    requires
        0 <= x <= VALUE_CAP,
        0 <= y <= VALUE_CAP,
    ensures
        r == val_mul(x as int, y as int),
        0 <= r <= VALUE_CAP,
{
    proof {
        crate::geom::lemma_mul_bound(x as int, y as int, VALUE_CAP as int, VALUE_CAP as int);
        assert(x as int * y as int / (FP_ONE as int) >= 0) by (nonlinear_arith)
            requires x >= 0 && y >= 0 && x as int * y as int >= 0;
    }
    let p: i128 = x as i128 * y as i128 / FP_ONE as i128;
    if p > VALUE_CAP as i128 { VALUE_CAP } else { p as i64 }
}

/// Moves a fraction `x` of the unit onto the scale `[scale, FP_ONE]`.
pub open spec fn scaled_to(scale: int, x: int) -> int {
    x * ((FP_ONE as int) - scale) / (FP_ONE as int) + scale
}

pub fn scaled_to_fp(scale: i64, x: i64) -> (r: i64)
    requires
        0 <= scale <= FP_ONE,
        0 <= x <= FP_ONE,
    ensures
        r == scaled_to(scale as int, x as int),
        0 <= r <= 2 * FP_ONE as int,
{
    proof {
        crate::geom::lemma_mul_bound(x as int, FP_ONE as int - scale as int, 10_000, 10_000);
        assert(x as int * (FP_ONE as int - scale as int) / (FP_ONE as int) >= 0) by (nonlinear_arith)
            requires x >= 0 && FP_ONE as int - scale as int >= 0;
    }
    x * (FP_ONE - scale) / FP_ONE + scale
}

/// The summed health fractions of a list of hit points, scaled by
/// `FP_ONE`.
pub open spec fn hp_frac_sum(hps: Seq<i32>) -> int
    decreases hps.len(),
{
    if hps.len() == 0 {
        0
    } else {
        hp_frac_sum(hps.drop_last()) + hps.last() * (FP_ONE as int) / (MAX_SHIP_HEALTH as int)
    }
}

/// The combined strength of a group: its summed health fractions,
/// weighted up by the size of the group.
pub open spec fn strength_of(hps: Seq<i32>) -> int {
    hp_frac_sum(hps) * (8_500 + 1_500 * hps.len() as int) / (FP_ONE as int)
}

/// All entries of a hit-point list lie in the valid health range.
pub open spec fn hps_ok(hps: Seq<i32>) -> bool {
    forall|i: int| 0 <= i < hps.len() ==> 0 <= #[trigger] hps[i] <= MAX_SHIP_HEALTH as int
}

proof fn lemma_hp_frac_sum_bounds(hps: Seq<i32>)
    requires
        hps_ok(hps),
    ensures
        0 <= hp_frac_sum(hps) <= hps.len() * (FP_ONE as int),
    decreases hps.len(),
{
    if hps.len() > 0 {
        assert(forall|i: int| 0 <= i < hps.drop_last().len()
            ==> 0 <= #[trigger] hps.drop_last()[i] <= MAX_SHIP_HEALTH as int);
        lemma_hp_frac_sum_bounds(hps.drop_last());
        assert(0 <= hps.last() * (FP_ONE as int) / (MAX_SHIP_HEALTH as int) <= FP_ONE as int) by (nonlinear_arith)
            requires 0 <= hps.last() <= MAX_SHIP_HEALTH as int;
    }
}

/// The combined strength of a group of hit points.
pub fn total_strength(hps: &Vec<i32>) -> (r: i64)
    requires
        hps_ok(hps@),
        hps@.len() <= 100_000,
    ensures
        r == strength_of(hps@),
        0 <= r <= VALUE_CAP,
{
    proof { lemma_hp_frac_sum_bounds(hps@); }
    let n = hps.len();
    let mut sum: i64 = 0;
    let mut i: usize = 0;
    while i < n
        invariant
            i <= n,
            sum == hp_frac_sum(hps@.take(i as int)),
            0 <= sum <= i * (FP_ONE as int),
        decreases n - i,
    {
        proof {
            assert(hps@.take(i as int + 1).drop_last() =~= hps@.take(i as int));
            assert(hps@.take(i as int + 1).last() == hps@[i as int]);
        }
        sum = sum + (hps[i] as i64) * FP_ONE / MAX_SHIP_HEALTH;
        i = i + 1;
    }
    proof {
        assert(hps@.take(n as int) =~= hps@);
        crate::geom::lemma_mul_bound(sum as int, 8_500 + 1_500 * n as int, 1_000_000_000, 150_008_500);
        assert(sum as int * (8_500 + 1_500 * n as int) / (FP_ONE as int) >= 0) by (nonlinear_arith)
            requires sum >= 0 && 8_500 + 1_500 * n as int >= 0;
        assert(sum as int * (8_500 + 1_500 * n as int) <= 1_000_000_000_000_000_000_0) by (nonlinear_arith)
            requires 0 <= sum <= 1_000_000_000 && 0 <= 8_500 + 1_500 * n as int <= 150_008_500;
    }
    let weighted: i128 = sum as i128 * (8_500 + 1_500 * n as i128) / FP_ONE as i128;
    weighted as i64
}

/// The hit points of each ship of a list, in order.
pub open spec fn hps_of(ships: Seq<Ship>) -> Seq<i32> {
    ships.map_values(|s: Ship| s.hp)
}

/// The combined strength of a group of ships.
pub fn total_ship_strength(ships: &Vec<Ship>) -> (r: i64)
    requires
        forall|i: int| 0 <= i < ships@.len() ==> (#[trigger] ships@[i]).wf(),
        ships@.len() <= 100_000,
    ensures
        r == strength_of(hps_of(ships@)),
        0 <= r <= VALUE_CAP,
{
    let n = ships.len();
    let mut hps: Vec<i32> = Vec::new();
    let mut i: usize = 0;
    while i < n
        invariant
            i <= n,
            hps@ == hps_of(ships@.take(i as int)),
            hps@.len() == i,
        decreases n - i,
    {
        proof {
            assert(hps_of(ships@.take(i as int + 1)) =~= hps_of(ships@.take(i as int)).push(ships@[i as int].hp));
        }
        hps.push(ships[i].hp);
        i = i + 1;
    }
    proof {
        assert(ships@.take(n as int) =~= ships@);
        assert(forall|k: int| 0 <= k < hps@.len() ==> 0 <= #[trigger] hps@[k] <= MAX_SHIP_HEALTH as int);
    }
    total_strength(&hps)
}

/// The turn-scoped record of strength already pledged against each
/// enemy ship, indexed like the enemy ship list it was created for.
pub struct CommitmentLedger {
    pub entries: Vec<Vec<i32>>,
}

impl CommitmentLedger {
    /// The strengths pledged against the enemy at one index.
    pub open spec fn at(self, i: int) -> Seq<i32> {
        self.entries@[i]@
    }

    pub open spec fn len(self) -> int {
        self.entries@.len() as int
    }

    pub open spec fn wf(self) -> bool {
        forall|i: int| 0 <= i < self.len() ==> hps_ok(#[trigger] self.at(i)) && self.at(i).len() <= 50_000
    }

    /// An empty ledger with one slot per enemy ship.
    pub fn new(n: usize) -> (led: CommitmentLedger)
        ensures
            led.len() == n,
            forall|i: int| 0 <= i < n ==> #[trigger] led.at(i) =~= Seq::<i32>::empty(),
            led.wf(),
    {
        let mut entries: Vec<Vec<i32>> = Vec::new();
        let mut i: usize = 0;
        while i < n
            invariant
                i <= n,
                entries@.len() == i,
                forall|k: int| 0 <= k < i ==> (#[trigger] entries@[k])@ =~= Seq::<i32>::empty(),
            decreases n - i,
        {
            entries.push(Vec::new());
            i = i + 1;
        }
        CommitmentLedger { entries }
    }

    /// Pledges one more ship's hit points against the enemy at `i`.
    pub fn add(&mut self, i: usize, hp: i32)
        requires
            old(self).wf(),
            0 <= i < old(self).len(),
            0 <= hp <= MAX_SHIP_HEALTH as int,
            old(self).at(i as int).len() < 50_000,
        ensures
            final(self).len() == old(self).len(),
            final(self).at(i as int) =~= old(self).at(i as int).push(hp),
            forall|j: int| 0 <= j < old(self).len() && j != i as int
                ==> #[trigger] final(self).at(j) == old(self).at(j),
            final(self).wf(),
    {
        let entry = &mut self.entries[i];
        entry.push(hp);
        proof {
            assert(final(self).entries@ == old(self).entries@.update(i as int, final(self).entries@[i as int]));
            assert forall|j: int| 0 <= j < old(self).len() && j != i as int
                implies #[trigger] final(self).at(j) == old(self).at(j) by {
                assert(final(self).entries@[j] == old(self).entries@[j]);
            }
            assert forall|j: int| 0 <= j < final(self).len()
                implies hps_ok(#[trigger] final(self).at(j)) && final(self).at(j).len() <= 50_000 by {
                if j == i as int {
                    assert(final(self).at(j) =~= old(self).at(j).push(hp));
                    assert(hps_ok(old(self).at(j)));
                    assert forall|k: int| 0 <= k < final(self).at(j).len()
                        implies 0 <= #[trigger] final(self).at(j)[k] <= MAX_SHIP_HEALTH as int by {
                        if k < old(self).at(j).len() {
                            assert(final(self).at(j)[k] == old(self).at(j)[k]);
                        }
                    }
                } else {
                    assert(hps_ok(old(self).at(j)));
                }
            }
        }
    }

    /// The pledged strength against the enemy at one index.
    pub fn strength_at(&self, i: usize) -> (r: i64)
        requires
            self.wf(),
            0 <= i < self.len(),
        ensures
            r == strength_of(self.at(i as int)),
            0 <= r <= VALUE_CAP,
    {
        let entry = &self.entries[i];
        proof {
            assert(hps_ok(self.at(i as int)));
            assert(entry@ == self.at(i as int));
        }
        total_strength(entry)
    }
}

/// The undocked allies within one turn's travel of a ship: the ships
/// of its own side that could come to its defense this turn.
pub open spec fn is_defender(s: Ship, of: Ship) -> bool {
    s.owner_id == of.owner_id
    && s.docking_status == crate::entities::DockingStatus::UNDOCKED
    && dist_sq(s.pos().0 as int, s.pos().1 as int, of.pos().0 as int, of.pos().1 as int)
        < (MAX_SPEED as int * FP_ONE as int) * (MAX_SPEED as int * FP_ONE as int)
}

pub open spec fn defenders_of(ships: Seq<Ship>, of: Ship) -> Seq<Ship>
    decreases ships.len(),
{
    if ships.len() == 0 {
        Seq::empty()
    } else {
        let rest = defenders_of(ships.drop_last(), of);
        if is_defender(ships.last(), of) {
            rest.push(ships.last())
        } else {
            rest
        }
    }
}

impl Ship {
    /// The ships that could defend this ship this turn.
    pub fn defenders(&self, game_map: &GameMap) -> (ds: Vec<Ship>)
        requires
            self.wf(),
            game_map.wf(),
        ensures
            ds@ == defenders_of(all_ships_seq(game_map.state.players@), *self),
    {
        let all = game_map.all_ships();
        proof { lemma_all_ships_wf(game_map.state.players@, game_map.my_id); }
        let n = all.len();
        let mut ds: Vec<Ship> = Vec::new();
        let mut i: usize = 0;
        while i < n
            invariant
                i <= n,
                ds@ == defenders_of(all@.take(i as int), *self),
            decreases n - i,
        {
            proof {
                assert(all@.take(i as int + 1).drop_last() =~= all@.take(i as int));
                assert(all@.take(i as int + 1).last() == all@[i as int]);
            }
            let s = &all[i];
            if s.owner_id == self.owner_id && s.is_undocked()
                && distance_lt(s.get_position(), self.get_position(), MAX_SPEED * FP_ONE) {
                ds.push(*s);
            }
            i = i + 1;
        }
        proof {
            assert(all@.take(n as int) =~= all@);
        }
        ds
    }

    /// How many enemies hold this ship in their weapon range.
    pub fn enemies_in_attack_range(&self, game_map: &GameMap) -> (count: usize)
        requires
            self.wf(),
            game_map.wf(),
        ensures
            count == in_range_enemies(all_ships_seq(game_map.state.players@), *self).len(),
    {
        let all = game_map.all_ships();
        proof { lemma_all_ships_wf(game_map.state.players@, game_map.my_id); }
        let n = all.len();
        let mut count: usize = 0;
        let mut i: usize = 0;
        while i < n
            invariant
                i <= n,
                count == in_range_enemies(all@.take(i as int), *self).len(),
                count <= i,
            decreases n - i,
        {
            proof {
                assert(all@.take(i as int + 1).drop_last() =~= all@.take(i as int));
                assert(all@.take(i as int + 1).last() == all@[i as int]);
            }
            let s = &all[i];
            if s.owner_id != self.owner_id && s.in_attack_range(self) {
                count = count + 1;
            }
            i = i + 1;
        }
        proof {
            assert(all@.take(n as int) =~= all@);
        }
        count
    }
}

/// The enemies of a ship that hold it in weapon range.
pub open spec fn in_range_enemies(ships: Seq<Ship>, of: Ship) -> Seq<Ship>
    decreases ships.len(),
{
    if ships.len() == 0 {
        Seq::empty()
    } else {
        let rest = in_range_enemies(ships.drop_last(), of);
        let s = ships.last();
        if s.owner_id != of.owner_id
            && dist_sq(s.pos().0 as int, s.pos().1 as int, of.pos().0 as int, of.pos().1 as int)
                < (WEAPON_RADIUS as int + 2 * SHIP_RADIUS as int) * (WEAPON_RADIUS as int + 2 * SHIP_RADIUS as int) {
            rest.push(s)
        } else {
            rest
        }
    }
}

/// Saturating non-negative sum.
pub open spec fn val_add(x: int, y: int) -> int {
    if x + y > VALUE_CAP as int { VALUE_CAP as int } else { x + y }
}

pub fn val_add_fp(x: i64, y: i64) -> (r: i64)
    requires
        0 <= x <= VALUE_CAP,
        0 <= y <= VALUE_CAP,
    ensures
        r == val_add(x as int, y as int),
        0 <= r <= VALUE_CAP,
{
    if x + y > VALUE_CAP { VALUE_CAP } else { x + y }
}

pub open spec fn clamp0(x: int) -> int {
    if x < 0 { 0 } else { x }
}

/// The pledged strength a score actually weighs: non-negative and
/// capped at the disparity clamp.
pub open spec fn commitment_weight(committed: Seq<i32>) -> int {
    let s = strength_of(committed);
    if s < 0 { 0 } else if s > COMMITMENT_CLAMP as int { COMMITMENT_CLAMP as int } else { s }
}

/// `commitment_weight`, exactly.
pub fn commitment_weight_fp(committed: &Vec<i32>) -> (r: i64)
    requires
        hps_ok(committed@),
        committed@.len() <= 100_000,
    ensures
        r == commitment_weight(committed@),
        0 <= r <= COMMITMENT_CLAMP,
{
    let s = total_strength(committed);
    if s < 0 { 0 } else if s > COMMITMENT_CLAMP { COMMITMENT_CLAMP } else { s }
}

/// The surface-to-surface distance between two circular entities, in
/// scaled units, never below zero: entities already touching are at
/// distance zero.
pub open spec fn surf_between(a: Position, ar: int, b: Position, br: int) -> int {
    clamp0(sqrt_floor(dist_sq(a.0 as int, a.1 as int, b.0 as int, b.1 as int)) - (ar + br))
}

pub fn surf_between_fp(a: Position, ar: i64, b: Position, br: i64) -> (r: i64)
    requires
        position_ok(a),
        position_ok(b),
        0 <= ar <= 30_000_000,
        0 <= br <= 30_000_000,
    ensures
        r == surf_between(a, ar as int, b, br as int),
        0 <= r <= VALUE_CAP,
{
    let d = distance_fp(a, b);
    let s = d - (ar + br);
    if s < 0 { 0 } else { s }
}

/// The health fraction of a ship, scaled by `FP_ONE`.
pub open spec fn spec_hp_frac(s: Ship) -> int {
    s.hp * (FP_ONE as int) / (MAX_SHIP_HEALTH as int)
}

/// The first index of the ship nearest to `from` among the first `n`.
pub open spec fn nearest_idx_upto(ships: Seq<Ship>, from: Position, n: int) -> int
    decreases n,
{
    if n <= 1 {
        0
    } else {
        let prev = nearest_idx_upto(ships, from, n - 1);
        if dist_sq(ships[n - 1].pos().0 as int, ships[n - 1].pos().1 as int, from.0 as int, from.1 as int)
            < dist_sq(ships[prev].pos().0 as int, ships[prev].pos().1 as int, from.0 as int, from.1 as int) {
            n - 1
        } else {
            prev
        }
    }
}

/// The first index of the ship nearest to `from`.
pub open spec fn nearest_idx(ships: Seq<Ship>, from: Position) -> int {
    nearest_idx_upto(ships, from, ships.len() as int)
}

proof fn lemma_nearest_idx_upto(ships: Seq<Ship>, from: Position, n: int)
    requires
        1 <= n <= ships.len(),
    ensures
        0 <= nearest_idx_upto(ships, from, n) < n,
    decreases n,
{
    if n > 1 {
        lemma_nearest_idx_upto(ships, from, n - 1);
    }
}

/// The first ship of the list nearest to `from`.
pub fn nearest_ship(ships: &Vec<Ship>, from: Position) -> (idx: usize)
    requires
        ships@.len() >= 1,
        forall|i: int| 0 <= i < ships@.len() ==> (#[trigger] ships@[i]).wf(),
        position_ok(from),
    ensures
        idx < ships@.len(),
        idx == nearest_idx(ships@, from),
{
    proof { lemma_nearest_idx_upto(ships@, from, ships@.len() as int); }
    let n = ships.len();
    let mut best: usize = 0;
    let mut best_d: i64 = distance_sq(ships[0].get_position(), from);
    let mut i: usize = 1;
    while i < n
        invariant
            1 <= i <= n,
            best < i,
            best == nearest_idx_upto(ships@, from, i as int),
            best_d == dist_sq(ships@[best as int].pos().0 as int, ships@[best as int].pos().1 as int,
                              from.0 as int, from.1 as int),
        decreases n - i,
    {
        let d = distance_sq(ships[i].get_position(), from);
        if d < best_d {
            best = i;
            best_d = d;
        }
        i = i + 1;
    }
    best
}

/// The ships of a list that are not free (docking, docked or
/// undocking).
pub open spec fn docked_of(ships: Seq<Ship>) -> Seq<Ship>
    decreases ships.len(),
{
    if ships.len() == 0 {
        Seq::empty()
    } else {
        let rest = docked_of(ships.drop_last());
        if ships.last().docking_status != crate::entities::DockingStatus::UNDOCKED {
            rest.push(ships.last())
        } else {
            rest
        }
    }
}

proof fn lemma_docked_of_wf(ships: Seq<Ship>)
    requires
        forall|i: int| 0 <= i < ships.len() ==> (#[trigger] ships[i]).wf(),
    ensures
        forall|i: int| 0 <= i < docked_of(ships).len() ==> (#[trigger] docked_of(ships)[i]).wf(),
        docked_of(ships).len() <= ships.len(),
    decreases ships.len(),
{
    if ships.len() > 0 {
        assert(forall|i: int| 0 <= i < ships.drop_last().len()
            ==> (#[trigger] ships.drop_last()[i]).wf());
        lemma_docked_of_wf(ships.drop_last());
    }
}

proof fn lemma_defenders_of_wf(ships: Seq<Ship>, of: Ship)
    requires
        forall|i: int| 0 <= i < ships.len() ==> (#[trigger] ships[i]).wf(),
    ensures
        forall|i: int| 0 <= i < defenders_of(ships, of).len() ==> (#[trigger] defenders_of(ships, of)[i]).wf(),
        defenders_of(ships, of).len() <= ships.len(),
    decreases ships.len(),
{
    if ships.len() > 0 {
        assert(forall|i: int| 0 <= i < ships.drop_last().len()
            ==> (#[trigger] ships.drop_last()[i]).wf());
        lemma_defenders_of_wf(ships.drop_last(), of);
    }
}

/// The base desirability of docking at a planet from a given circular
/// entity: distance-weighted, discounted towards the map edge, scaled
/// by the planet's size, and pushed out of reach when its docking
/// capacity is spoken for.
pub open spec fn spec_dock_value_base(epos: Position, eradius: int, planet: Planet, width: int, height: int) -> int {
    let px = planet.position.0 as int;
    let py = planet.position.1 as int;
    let edge_x = if px > width / 2 { width - px } else { px };
    let edge_y = if py > height / 2 { height - py } else { py };
    let frac = clamp0(edge_x) * (FP_ONE as int) / width + clamp0(edge_y) * (FP_ONE as int) / height;
    let frac1 = if frac > FP_ONE as int { FP_ONE as int } else { frac };
    let edge_mod = scaled_to(5_000, frac1);
    let spots = planet.num_docking_spots as int;
    let size_factor: int = if spots == 2 { 13_000 } else if spots == 3 || spots == 4 { 11_000 }
        else if spots == 5 { 10_500 } else { 10_000 };
    let total = planet.committed_ships as int + planet.docked_ships.len() as int;
    let cf: int = if total >= spots { EXHAUSTED_SCORE as int } else if total > 0 { 8_500 } else { 10_000 };
    let surf = surf_between(epos, eradius, planet.position, planet.spec_effective_radius());
    val_mul(val_mul(val_mul(cf, size_factor),
        val_add(surf, 2 * (MAX_SPEED as int) * (DOCK_TURNS as int) * (FP_ONE as int))), edge_mod)
}

/// `spec_dock_value_base`, exactly.
pub fn dock_value_base(epos: Position, eradius: i64, planet: &Planet, width: i64, height: i64) -> (r: i64)
    requires
        position_ok(epos),
        0 <= eradius <= 30_000_000,
        planet.wf(),
        0 < width <= 10_000_000,
        0 < height <= 10_000_000,
    ensures
        r == spec_dock_value_base(epos, eradius as int, *planet, width as int, height as int),
        0 <= r <= VALUE_CAP,
{
    let px = planet.position.0;
    let py = planet.position.1;
    let edge_x: i64 = if px > width / 2 { width - px } else { px };
    let edge_y: i64 = if py > height / 2 { height - py } else { py };
    let ex0: i64 = if edge_x < 0 { 0 } else { edge_x };
    let ey0: i64 = if edge_y < 0 { 0 } else { edge_y };
    proof {
        crate::geom::lemma_mul_bound(ex0 as int, FP_ONE as int, 200_000_000, 10_000);
        crate::geom::lemma_mul_bound(ey0 as int, FP_ONE as int, 200_000_000, 10_000);
        assert(ex0 as int * (FP_ONE as int) / (width as int) >= 0) by (nonlinear_arith)
            requires ex0 >= 0 && width > 0;
        assert(ey0 as int * (FP_ONE as int) / (height as int) >= 0) by (nonlinear_arith)
            requires ey0 >= 0 && height > 0;
    }
    let fx0: i64 = ex0 * FP_ONE / width;
    let fy0: i64 = ey0 * FP_ONE / height;
    let frac: i64 = fx0 + fy0;
    let frac1: i64 = if frac > FP_ONE { FP_ONE } else { frac };
    let edge_mod = scaled_to_fp(5_000, frac1);
    let spots = planet.num_docking_spots;
    let size_factor: i64 = if spots == 2 { 13_000 } else if spots == 3 || spots == 4 { 11_000 }
        else if spots == 5 { 10_500 } else { 10_000 };
    let total: i64 = planet.committed_ships as i64 + planet.docked_ships.len() as i64;
    let cf: i64 = if total >= spots as i64 { EXHAUSTED_SCORE } else if total > 0 { 8_500 } else { 10_000 };
    let surf = surf_between_fp(epos, eradius, planet.position, planet.get_radius());
    val_mul_fp(val_mul_fp(val_mul_fp(cf, size_factor),
        val_add_fp(surf, 2 * MAX_SPEED * DOCK_TURNS * FP_ONE)), edge_mod)
}

/// The herd discount: the summed base desirability, from this planet,
/// of every other reachable planet, so that one attractive planet in
/// a cluster does not draw the whole fleet.
pub open spec fn herd_sum(planets: Seq<Planet>, from: Planet, width: int, height: int) -> int
    decreases planets.len(),
{
    if planets.len() == 0 {
        0
    } else {
        let rest = herd_sum(planets.drop_last(), from, width, height);
        let p = planets.last();
        let b = spec_dock_value_base(from.position, from.spec_effective_radius(), p, width, height);
        if p.id != from.id && b < 10_000_000 {
            val_add(rest, b)
        } else {
            rest
        }
    }
}

/// The desirability of this ship docking at this planet: the base
/// value plus half the average herd discount over all planets.
pub open spec fn spec_dock_value(ship: Ship, planet: Planet, planets: Seq<Planet>, width: int, height: int) -> int {
    let base = spec_dock_value_base(ship.pos(), SHIP_RADIUS as int, planet, width, height);
    val_add(base, val_mul(5_000, herd_sum(planets, planet, width, height) / planets.len() as int))
}

/// The raid score of this ship against a docked enemy: grows with the
/// distance, the target's remaining health, the strength already
/// pledged against it, and the defenders near it.  Lower is better.
pub open spec fn spec_raid_value(ship: Ship, enemy: Ship, players: Seq<Player>, committed: Seq<i32>) -> int {
    let c = commitment_weight(committed);
    let dstr = clamp0(strength_of(hps_of(defenders_of(all_ships_seq(players), enemy))));
    let df = val_add(10_000, val_mul(1_000, dstr));
    let a = val_add(val_mul(2_000, c), 10_000);
    let surf = surf_between(ship.pos(), SHIP_RADIUS as int, enemy.pos(), SHIP_RADIUS as int);
    let hpterm = 5_000 + spec_hp_frac(enemy) / 2;
    val_mul(val_mul(val_mul(a, surf), hpterm), df)
}

/// The intercept score of this ship against a free enemy.
pub open spec fn spec_intercept_value(ship: Ship, enemy: Ship, committed: Seq<i32>) -> int {
    let c = commitment_weight(committed);
    let a = val_add(c, 10_000);
    let surf = surf_between(ship.pos(), SHIP_RADIUS as int, enemy.pos(), SHIP_RADIUS as int);
    val_mul(val_mul(a, surf), scaled_to(7_500, spec_hp_frac(enemy)))
}

/// The defense score of this ship against an aggressor: weighted by
/// the threat the aggressor poses to the nearest docked ally.  With
/// nothing docked there is nothing to defend, and the score is idle.
pub open spec fn spec_defense_value(ship: Ship, enemy: Ship, players: Seq<Player>, my_id: i32, committed: Seq<i32>) -> int {
    let docked = docked_of(side_ships_seq(players, my_id, true));
    if docked.len() == 0 {
        IDLE_SCORE as int
    } else {
        let nd = docked[nearest_idx(docked, enemy.pos())];
        let threat = val_mul(
            surf_between(enemy.pos(), SHIP_RADIUS as int, nd.pos(), SHIP_RADIUS as int),
            scaled_to(6_667, spec_hp_frac(nd)));
        let dta = surf_between(ship.pos(), SHIP_RADIUS as int, enemy.pos(), SHIP_RADIUS as int);
        let c = commitment_weight(committed);
        val_mul(val_add(c, 10_000), val_add(val_mul(dta, 5_000), val_mul(threat, 15_000)))
    }
}

impl Ship {
    /// The desirability of docking at `planet`; lower is better.
    pub fn dock_value(&self, planet: &Planet, game_map: &GameMap) -> (r: i64)
        requires
            self.wf(),
            planet.wf(),
            game_map.wf(),
            1 <= game_map.state.planets@.len() <= 10_000,
        ensures
            r == spec_dock_value(*self, *planet, game_map.state.planets@,
                                 game_map.width as int, game_map.height as int),
            0 <= r <= VALUE_CAP,
    {
        let base = dock_value_base(self.get_position(), SHIP_RADIUS, planet, game_map.width, game_map.height);
        let n = game_map.state.planets.len();
        let mut sum: i64 = 0;
        let mut i: usize = 0;
        while i < n
            invariant
                i <= n,
                sum == herd_sum(game_map.state.planets@.take(i as int), *planet,
                                game_map.width as int, game_map.height as int),
                0 <= sum <= VALUE_CAP,
            decreases n - i,
        {
            let p = &game_map.state.planets[i];
            proof {
                assert(game_map.state.planets@.take(i as int + 1).drop_last()
                    =~= game_map.state.planets@.take(i as int));
                assert(game_map.state.planets@.take(i as int + 1).last()
                    == game_map.state.planets@[i as int]);
            }
            let b = dock_value_base(planet.position, planet.get_radius(), p, game_map.width, game_map.height);
            if p.id != planet.id && b < 10_000_000 {
                sum = val_add_fp(sum, b);
            }
            i = i + 1;
        }
        proof {
            assert(game_map.state.planets@.take(n as int) =~= game_map.state.planets@);
        }
        val_add_fp(base, val_mul_fp(5_000, sum / n as i64))
    }

    /// The raid score against a docked enemy; lower is better.
    pub fn raid_value(&self, enemy_ship: &Ship, game_map: &GameMap, committed: &Vec<i32>) -> (r: i64)
        requires
            self.wf(),
            enemy_ship.wf(),
            game_map.wf(),
            hps_ok(committed@),
            committed@.len() <= 100_000,
        ensures
            r == spec_raid_value(*self, *enemy_ship, game_map.state.players@, committed@),
            0 <= r <= VALUE_CAP,
    {
        let c = commitment_weight_fp(committed);
        let ds = enemy_ship.defenders(game_map);
        proof {
            lemma_all_ships_wf(game_map.state.players@, game_map.my_id);
            lemma_defenders_of_wf(all_ships_seq(game_map.state.players@), *enemy_ship);
        }
        let dstr0 = total_ship_strength(&ds);
        let dstr = if dstr0 < 0 { 0 } else { dstr0 };
        let df = val_add_fp(10_000, val_mul_fp(1_000, dstr));
        let a = val_add_fp(val_mul_fp(2_000, c), 10_000);
        let surf = surf_between_fp(self.get_position(), SHIP_RADIUS, enemy_ship.get_position(), SHIP_RADIUS);
        let hpterm = 5_000 + enemy_ship.hp_percent() / 2;
        val_mul_fp(val_mul_fp(val_mul_fp(a, surf), hpterm), df)
    }

    /// The intercept score against a free enemy; lower is better.
    pub fn intercept_value(&self, enemy_ship: &Ship, committed: &Vec<i32>) -> (r: i64)
        requires
            self.wf(),
            enemy_ship.wf(),
            hps_ok(committed@),
            committed@.len() <= 100_000,
        ensures
            r == spec_intercept_value(*self, *enemy_ship, committed@),
            0 <= r <= VALUE_CAP,
    {
        let c = commitment_weight_fp(committed);
        let a = val_add_fp(c, 10_000);
        let surf = surf_between_fp(self.get_position(), SHIP_RADIUS, enemy_ship.get_position(), SHIP_RADIUS);
        val_mul_fp(val_mul_fp(a, surf), scaled_to_fp(7_500, enemy_ship.hp_percent()))
    }

    /// The defense score against an aggressor; lower is better.
    pub fn defense_value(&self, enemy_ship: &Ship, game_map: &GameMap, committed: &Vec<i32>) -> (r: i64)
        requires
            self.wf(),
            enemy_ship.wf(),
            game_map.wf(),
            hps_ok(committed@),
            committed@.len() <= 100_000,
        ensures
            r == spec_defense_value(*self, *enemy_ship, game_map.state.players@, game_map.my_id, committed@),
            0 <= r <= VALUE_CAP,
    {
        let mine = game_map.my_ships();
        proof {
            lemma_side_ships_wf(game_map.state.players@, game_map.my_id, true);
            lemma_docked_of_wf(side_ships_seq(game_map.state.players@, game_map.my_id, true));
        }
        let n = mine.len();
        let mut docked: Vec<Ship> = Vec::new();
        let mut i: usize = 0;
        while i < n
            invariant
                i <= n,
                docked@ == docked_of(mine@.take(i as int)),
            decreases n - i,
        {
            proof {
                assert(mine@.take(i as int + 1).drop_last() =~= mine@.take(i as int));
                assert(mine@.take(i as int + 1).last() == mine@[i as int]);
            }
            if !mine[i].is_undocked() {
                docked.push(mine[i]);
            }
            i = i + 1;
        }
        proof {
            assert(mine@.take(n as int) =~= mine@);
        }
        if docked.len() == 0 {
            IDLE_SCORE
        } else {
            let ndi = nearest_ship(&docked, enemy_ship.get_position());
            let nd = docked[ndi];
            let threat = val_mul_fp(
                surf_between_fp(enemy_ship.get_position(), SHIP_RADIUS, nd.get_position(), SHIP_RADIUS),
                scaled_to_fp(6_667, nd.hp_percent()));
            let dta = surf_between_fp(self.get_position(), SHIP_RADIUS, enemy_ship.get_position(), SHIP_RADIUS);
            let c = commitment_weight_fp(committed);
            val_mul_fp(val_add_fp(c, 10_000), val_add_fp(val_mul_fp(dta, 5_000), val_mul_fp(threat, 15_000)))
        }
    }

    /// The damage this ship stands to take this turn from enemies that
    /// hold it, or would enter, weapon range, with each attacker's fire
    /// split over its targets.
    pub fn projected_damage_taken(&self, game_map: &GameMap) -> (dmg: i64)
        requires
            self.wf(),
            game_map.wf(),
        ensures
            dmg == spec_projected_damage(all_ships_seq(game_map.state.players@),
                all_ships_seq(game_map.state.players@).len() as int, *self),
            dmg >= 0,
    {
        let all = game_map.all_ships();
        proof { lemma_all_ships_wf(game_map.state.players@, game_map.my_id); }
        let n = all.len();
        let mut dmg: i64 = 0;
        let mut i: usize = 0;
        while i < n
            invariant
                i <= n,
                n == all@.len(),
                dmg == spec_projected_damage(all@, i as int, *self),
                0 <= dmg <= i * WEAPON_DAMAGE,
            decreases n - i,
        {
            let enemy = &all[i];
            if enemy.is_undocked() && enemy.owner_id != self.owner_id {
                if enemy.in_attack_range(self) {
                    let targets = enemy.enemies_in_attack_range(game_map);
                    if targets == 0 {
                        dmg = dmg + WEAPON_DAMAGE;
                    } else {
                        // fire split sixty-five ways or more rounds to nothing
                        let t: i64 = if targets > 65 { 65 } else { targets as i64 };
                        proof {
                            assert(0 <= WEAPON_DAMAGE as int / (t as int) <= WEAPON_DAMAGE as int) by (nonlinear_arith)
                                requires 1 <= t;
                        }
                        dmg = dmg + WEAPON_DAMAGE / t;
                    }
                } else if enemy.will_enter_attack_range(self) {
                    dmg = dmg + WEAPON_DAMAGE;
                }
            }
            i = i + 1;
        }
        dmg
    }
}

/// What one enemy contributes to the damage a ship stands to take
/// this turn: full weapon damage when it would newly enter range,
/// and its fire split over every target it already holds in range.
pub open spec fn spec_damage_term(all: Seq<Ship>, enemy: Ship, target: Ship) -> int {
    if enemy.docking_status == crate::entities::DockingStatus::UNDOCKED
        && enemy.owner_id != target.owner_id {
        if dist_sq(enemy.pos().0 as int, enemy.pos().1 as int, target.pos().0 as int, target.pos().1 as int)
            < (WEAPON_RADIUS as int + 2 * SHIP_RADIUS as int) * (WEAPON_RADIUS as int + 2 * SHIP_RADIUS as int) {
            let t = in_range_enemies(all, enemy).len() as int;
            if t == 0 {
                WEAPON_DAMAGE as int
            } else {
                WEAPON_DAMAGE as int / (if t > 65 { 65int } else { t })
            }
        } else if crate::geom::moving_circles_hit(
            enemy.pos().0 as int, enemy.pos().1 as int, enemy.velocity_x as int, enemy.velocity_y as int,
            target.pos().0 as int, target.pos().1 as int, target.velocity_x as int, target.velocity_y as int,
            SHIP_RADIUS as int + WEAPON_RADIUS as int + crate::consts::FUDGE as int) {
            WEAPON_DAMAGE as int
        } else {
            0
        }
    } else {
        0
    }
}

/// The damage the first `n` ships of the map project onto a target.
pub open spec fn spec_projected_damage(all: Seq<Ship>, n: int, target: Ship) -> int
    decreases n,
{
    if n <= 0 {
        0
    } else {
        spec_projected_damage(all, n - 1, target) + spec_damage_term(all, all[n - 1], target)
    }
}

/// Every ship of a well-formed side list is well-formed.
pub proof fn lemma_side_ships_wf(players: Seq<Player>, my_id: i32, mine: bool)
    requires
        forall|i: int| 0 <= i < players.len() ==> (#[trigger] players[i]).wf(),
    ensures
        forall|i: int| 0 <= i < side_ships_seq(players, my_id, mine).len()
            ==> (#[trigger] side_ships_seq(players, my_id, mine)[i]).wf(),
        side_ships_seq(players, my_id, mine).len() <= players.len() * 5_000,
    decreases players.len(),
{
    if players.len() > 0 {
        assert forall|i: int| 0 <= i < players.drop_last().len()
            implies (#[trigger] players.drop_last()[i]).wf() by {
            assert(players.drop_last()[i] == players[i]);
        }
        lemma_side_ships_wf(players.drop_last(), my_id, mine);
        assert(players.last().wf());
        assert forall|i: int| 0 <= i < side_ships_seq(players, my_id, mine).len()
            implies (#[trigger] side_ships_seq(players, my_id, mine)[i]).wf() by {
            let rest = side_ships_seq(players.drop_last(), my_id, mine);
            if i >= rest.len() {
                assert(side_ships_seq(players, my_id, mine)[i] == players.last().ships@[i - rest.len()]);
            }
        }
    }
}

/// A valuation is a function of the snapshot and the ledger alone:
/// two results both meeting a scoring contract on the same inputs are
/// the same score, so calling a valuation twice with an unchanged
/// world yields identical scores.
pub proof fn lemma_valuation_idempotent(
    ship: Ship, enemy: Ship, players: Seq<Player>, committed: Seq<i32>, v1: i64, v2: i64,
)
    requires
        v1 == spec_raid_value(ship, enemy, players, committed),
        v2 == spec_raid_value(ship, enemy, players, committed),
    ensures
        v1 == v2,
{
}

} // verus!
