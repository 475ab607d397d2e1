//! The world's data model: positions, obstacles, ships, planets and the
//! per-turn commands.
//!
//! All coordinates, radii and velocities are fixed-point (`FP_ONE`
//! scaled units to the world unit).  Every entity carries a
//! well-formedness predicate that bounds its coordinates so that each
//! geometric test stays exact.

use vstd::prelude::*;
use crate::consts::{FP_ONE, MAX_SPEED, SHIP_RADIUS, WEAPON_RADIUS, DOCK_RADIUS, MAX_SHIP_HEALTH};
use crate::geom::{dist_sq, in_geom_range, lemma_mul_bound, lemma_sq_bound};

verus! {

/// Coordinates this far from the origin keep every geometric test,
/// including one step of motion, inside the exact range.
pub const POS_BOUND: i64 = 99_000_000;

/// A point of the plane, in scaled units.
#[derive(Clone, Copy, PartialEq, Eq, Structural, Debug)]
pub struct Position(pub i64, pub i64);

/// A coordinate that stays well inside the exact geometric range.
pub open spec fn coord_ok(v: int) -> bool {
    -(POS_BOUND as int) <= v <= POS_BOUND as int
}

pub open spec fn position_ok(p: Position) -> bool {
    coord_ok(p.0 as int) && coord_ok(p.1 as int)
}

/// A position still inside the exact geometric range, though possibly
/// past the world bound: one step of motion from a well-placed
/// position stays here.
pub open spec fn pos_in_range(p: Position) -> bool {
    in_geom_range(p.0 as int) && in_geom_range(p.1 as int)
}

/// A velocity reachable in one turn: at most `MAX_SPEED` whole units
/// along each axis.
pub open spec fn velocity_ok(v: int) -> bool {
    -(MAX_SPEED as int) * (FP_ONE as int) <= v <= (MAX_SPEED as int) * (FP_ONE as int)
}

/// A read-only circular region, static or moving, used only for
/// collision testing.
#[derive(Clone, Copy, PartialEq, Eq, Structural, Debug)]
pub struct Obstacle {
    pub position: Position,
    pub radius: i64,
    pub velocity_x: i64,
    pub velocity_y: i64,
}

/// An obstacle whose fields keep the collision tests exact.
pub open spec fn obstacle_ok(ob: Obstacle) -> bool {
    position_ok(ob.position)
    && 0 <= ob.radius <= 10_000_000
    && velocity_ok(ob.velocity_x as int)
    && velocity_ok(ob.velocity_y as int)
}

/// A ship's docking state in the turn protocol.
#[derive(Clone, Copy, PartialEq, Eq, Structural, Debug)]
pub enum DockingStatus {
    UNDOCKED,
    DOCKING,
    DOCKED,
    UNDOCKING,
}

/// A per-unit order for this turn.  Magnitude and heading of a thrust
/// are whole units and whole degrees, as the protocol requires.
#[derive(Clone, Copy, PartialEq, Eq, Structural, Debug)]
pub enum Command {
    Thrust(i32, i32, i32),
    Dock(i32, i32),
    Undock(i32),
    Stay,
}

/// A mobile controllable unit.  Its movement history is kept by the
/// turn driver, not on the ship: the ship carries only its current
/// position, so a ship is a plain copyable value.
#[derive(Clone, Copy, PartialEq, Eq, Structural, Debug)]
pub struct Ship {
    pub id: i32,
    pub owner_id: i32,
    /// the current position
    pub position: Position,
    pub hp: i32,
    /// scratch velocity used while testing trajectories, scaled units per turn
    pub velocity_x: i64,
    pub velocity_y: i64,
    pub docking_status: DockingStatus,
    pub docked_planet: Option<i32>,
    pub progress: i32,
    pub cooldown: i32,
    /// the write-once command slot for this turn
    pub command: Option<Command>,
}

impl Ship {
    /// The ship's current position.
    pub open spec fn pos(self) -> Position {
        self.position
    }

    /// Fields bounded so that every geometric test on this ship is exact.
    pub open spec fn wf(self) -> bool {
        position_ok(self.pos())
        && velocity_ok(self.velocity_x as int)
        && velocity_ok(self.velocity_y as int)
        && 0 <= self.hp <= MAX_SHIP_HEALTH as int
    }

    /// The ship's current position.
    pub fn get_position(&self) -> (p: Position)
        ensures
            p == self.pos(),
    {
        self.position
    }

    pub fn thrust(&self, magnitude: i32, angle: i32) -> (c: Command)
        ensures
            c == Command::Thrust(self.id, magnitude, angle),
    {
        Command::Thrust(self.id, magnitude, angle)
    }

    pub fn dock(&self, planet: &Planet) -> (c: Command)
        ensures
            c == Command::Dock(self.id, planet.id),
    {
        Command::Dock(self.id, planet.id)
    }

    pub fn undock(&self) -> (c: Command)
        ensures
            c == Command::Undock(self.id),
    {
        Command::Undock(self.id)
    }

    /// The ship as a physical obstacle, with its scratch velocity.
    pub fn get_obstacle(&self) -> (ob: Obstacle)
        ensures
            ob.position == self.pos(),
            ob.radius == SHIP_RADIUS as int,
            ob.velocity_x == self.velocity_x,
            ob.velocity_y == self.velocity_y,
    {
        Obstacle {
            position: self.get_position(),
            radius: SHIP_RADIUS,
            velocity_x: self.velocity_x,
            velocity_y: self.velocity_y,
        }
    }

    /// The ship's weapon range as an obstacle, with its scratch velocity.
    pub fn get_danger_obstacle(&self) -> (ob: Obstacle)
        ensures
            ob.position == self.pos(),
            ob.radius == WEAPON_RADIUS as int,
            ob.velocity_x == self.velocity_x,
            ob.velocity_y == self.velocity_y,
    {
        Obstacle {
            position: self.get_position(),
            radius: WEAPON_RADIUS,
            velocity_x: self.velocity_x,
            velocity_y: self.velocity_y,
        }
    }

    /// Whether the ship is close enough to try to dock: nearer to the
    /// planet's centre than the dock radius plus the planet's
    /// effective radius (widened when the planet is doomed).
    pub fn in_dock_range(&self, planet: &Planet) -> (r: bool)
        requires
            self.wf(),
            planet.wf(),
        ensures
            r == (dist_sq(self.pos().0 as int, self.pos().1 as int,
                          planet.position.0 as int, planet.position.1 as int)
                  < (DOCK_RADIUS as int + planet.spec_effective_radius())
                    * (DOCK_RADIUS as int + planet.spec_effective_radius())),
    {
        let p = self.get_position();
        distance_lt(p, planet.position, DOCK_RADIUS + planet.get_radius())
    }

    /// Whether the other ship is within weapon range of this one,
    /// allowing for both hulls.
    pub fn in_attack_range(&self, ship: &Ship) -> (r: bool)
        requires
            self.wf(),
            ship.wf(),
        ensures
            r == (dist_sq(self.pos().0 as int, self.pos().1 as int,
                          ship.pos().0 as int, ship.pos().1 as int)
                  < (WEAPON_RADIUS + SHIP_RADIUS + SHIP_RADIUS)
                    * (WEAPON_RADIUS + SHIP_RADIUS + SHIP_RADIUS)),
    {
        let p = self.get_position();
        distance_lt(p, ship.get_position(), WEAPON_RADIUS + SHIP_RADIUS + SHIP_RADIUS)
    }

    pub fn is_docked(&self) -> (r: bool)
        ensures
            r == (self.docking_status == DockingStatus::DOCKED),
    {
        self.docking_status == DockingStatus::DOCKED
    }

    pub fn is_undocked(&self) -> (r: bool)
        ensures
            r == (self.docking_status == DockingStatus::UNDOCKED),
    {
        self.docking_status == DockingStatus::UNDOCKED
    }

    /// The ship's health as a fraction of full health, scaled by `FP_ONE`.
    pub fn hp_percent(&self) -> (r: i64)
        requires
            self.wf(),
        ensures
            r == self.hp * FP_ONE as int / MAX_SHIP_HEALTH as int,
            0 <= r <= FP_ONE as int,
    {
        self.hp as i64 * FP_ONE / MAX_SHIP_HEALTH
    }

    pub fn commanded(&self) -> (r: bool)
        ensures
            r == self.command.is_some(),
    {
        self.command.is_some()
    }

    /// Sets the scratch velocity used while testing trajectories.
    pub fn set_velocity(&mut self, v_x: i64, v_y: i64)
        ensures
            *final(self) == (Ship { velocity_x: v_x, velocity_y: v_y, ..*old(self) }),
    {
        self.velocity_x = v_x;
        self.velocity_y = v_y;
    }

    /// Clears the scratch velocity.
    pub fn reset_velocity(&mut self)
        ensures
            *final(self) == (Ship { velocity_x: 0i64, velocity_y: 0i64, ..*old(self) }),
    {
        self.velocity_x = 0;
        self.velocity_y = 0;
    }
}

/// An immobile object with finite docking capacity.
#[derive(Clone, Debug)]
pub struct Planet {
    pub id: i32,
    pub position: Position,
    pub hp: i32,
    pub radius: i64,
    pub num_docking_spots: i32,
    pub current_production: i32,
    pub remaining_resources: i32,
    pub owner: Option<i32>,
    pub docked_ships: Vec<i32>,
    /// how many ships have pledged to dock here this turn
    pub committed_ships: i32,
    pub doomed: bool,
}

impl Planet {
    /// Fields bounded so that every geometric test on this planet is
    /// exact, with docking spots in the range the rules allow.
    pub open spec fn wf(self) -> bool {
        position_ok(self.position)
        && 0 <= self.radius <= 10_000_000
        && 2 <= self.num_docking_spots <= 6
        && self.docked_ships.len() <= self.num_docking_spots as int
        && 0 <= self.committed_ships
        && 0 <= self.current_production
        && 0 <= self.hp
    }

    /// The capacity invariant: pledged plus already-docked ships never
    /// exceed the planet's docking spots.
    pub open spec fn capacity_ok(self) -> bool {
        self.committed_ships as int + self.docked_ships.len() <= self.num_docking_spots as int
    }

    pub fn is_owned(&self) -> (r: bool)
        ensures
            r == self.owner.is_some(),
    {
        self.owner.is_some()
    }

    /// Docking spots not yet taken by a docked ship.
    pub fn open_docks(&self) -> (r: usize)
        requires
            self.wf(),
        ensures
            r == self.num_docking_spots as int - self.docked_ships.len(),
    {
        self.num_docking_spots as usize - self.docked_ships.len()
    }

    pub fn any_docked(&self) -> (r: bool)
        ensures
            r == (self.docked_ships.len() > 0),
    {
        self.docked_ships.len() > 0
    }

    /// The planet as a stationary obstacle of its own radius.
    pub fn get_obstacle(&self) -> (ob: Obstacle)
        ensures
            ob == (Obstacle {
                position: self.position,
                radius: self.radius,
                velocity_x: 0i64,
                velocity_y: 0i64,
            }),
    {
        Obstacle {
            position: self.position,
            radius: self.radius,
            velocity_x: 0,
            velocity_y: 0,
        }
    }

    /// Pledges one more ship to this planet.
    pub fn increment_committed_ships(&mut self)
        requires
            old(self).committed_ships < i32::MAX,
        ensures
            *final(self) == (Planet { committed_ships: (old(self).committed_ships + 1) as i32, ..*old(self) }),
    {
        self.committed_ships = 1 + self.committed_ships;
    }

    /// How many ships have pledged to act on this planet this turn.
    pub fn commitment(&self) -> (r: i32)
        ensures
            r == self.committed_ships,
    {
        self.committed_ships
    }

    /// The planet's blast range when it is about to explode: at least
    /// the dock radius, else its own radius.
    pub open spec fn spec_explosion_radius(self) -> int {
        if self.radius <= DOCK_RADIUS as int { DOCK_RADIUS as int } else { self.radius as int }
    }

    pub fn explosion_radius(&self) -> (r: i64)
        ensures
            r == self.spec_explosion_radius(),
    {
        if self.radius <= DOCK_RADIUS { DOCK_RADIUS } else { self.radius }
    }

    /// The planet's danger zone as a stationary obstacle.
    pub fn get_danger_obstacle(&self) -> (ob: Obstacle)
        ensures
            ob == (Obstacle {
                position: self.position,
                radius: self.spec_explosion_radius() as i64,
                velocity_x: 0i64,
                velocity_y: 0i64,
            }),
    {
        Obstacle {
            position: self.position,
            radius: self.explosion_radius(),
            velocity_x: 0,
            velocity_y: 0,
        }
    }

    /// The planet's effective radius for routing: widened by the blast
    /// range when it is doomed to explode.
    pub open spec fn spec_effective_radius(self) -> int {
        if self.doomed { self.radius + self.spec_explosion_radius() } else { self.radius as int }
    }

    pub fn get_radius(&self) -> (r: i64)
        requires
            self.wf(),
        ensures
            r == self.spec_effective_radius(),
    {
        if self.doomed { self.radius + self.explosion_radius() } else { self.radius }
    }

    /// Turns until this planet spawns a new ship at its current
    /// production rate; effectively never when nothing is docked, and
    /// immediately when the production counter is already full.
    pub open spec fn spec_turns_until_spawn(self) -> int {
        if self.docked_ships@.len() == 0 {
            999_999
        } else {
            spec_remaining_production(self.current_production as int)
                / (self.docked_ships@.len() * 3) as int
        }
    }

    pub fn turns_until_spawn(&self) -> (r: i64)
        requires
            self.wf(),
        ensures
            r == self.spec_turns_until_spawn(),
            0 <= r <= 999_999,
    {
        if self.docked_ships.len() == 0 {
            999_999
        } else {
            let remaining: i64 = if self.current_production as i64 >= crate::consts::SHIP_COST {
                0
            } else {
                crate::consts::SHIP_COST - self.current_production as i64
            };
            let d: i64 = (self.docked_ships.len() * 3) as i64;
            proof {
                assert(remaining as int / (d as int) <= remaining as int) by (nonlinear_arith)
                    requires remaining >= 0 && d >= 1;
                assert(remaining as int / (d as int) >= 0) by (nonlinear_arith)
                    requires remaining >= 0 && d >= 1;
            }
            remaining / d
        }
    }

    pub fn is_doomed(&self) -> (r: bool)
        ensures
            r == self.doomed,
    {
        self.doomed
    }

    /// The damage this planet's explosion would deal to a ship: full
    /// damage at the centre falling off linearly to the least damage
    /// at the blast's edge, capped by the ship's remaining health;
    /// nothing beyond the blast range.
    pub fn damage_from_explosion(&self, ship: &Ship) -> (dmg: i64)
        requires
            self.wf(),
            ship.wf(),
        ensures
            dmg == spec_explosion_damage(*self, *ship),
            0 <= dmg <= ship.hp,
    {
        let danger = self.explosion_radius();
        let d = distance_fp(self.position, ship.position);
        let surface = d - self.radius;
        if surface < danger {
            let falloff = crate::navigate::muldiv_fp(surface, crate::consts::FP_ONE, danger);
            let frac: i64 = if falloff > crate::consts::FP_ONE {
                0
            } else if falloff < 0 {
                crate::consts::FP_ONE
            } else {
                crate::consts::FP_ONE - falloff
            };
            proof {
                crate::geom::lemma_mul_bound(frac as int,
                    crate::consts::MAX_EXPLOSION_DAMAGE as int - crate::consts::MIN_EXPLOSION_DAMAGE as int,
                    10_000, 1_148);
                assert(frac as int * 1_148 / (crate::consts::FP_ONE as int) >= 0) by (nonlinear_arith)
                    requires frac >= 0;
            }
            let dmg = crate::consts::MIN_EXPLOSION_DAMAGE
                + frac * (crate::consts::MAX_EXPLOSION_DAMAGE - crate::consts::MIN_EXPLOSION_DAMAGE)
                    / crate::consts::FP_ONE;
            if dmg > ship.hp as i64 { ship.hp as i64 } else { dmg }
        } else {
            0
        }
    }
}

/// What a planet's explosion deals to a ship: a linear falloff from
/// the full to the least damage over the blast range, clamped to the
/// unit interval, capped by the ship's health.
pub open spec fn spec_explosion_damage(planet: Planet, ship: Ship) -> int {
    let danger = planet.spec_explosion_radius();
    let surface = sqrt_floor(dist_sq(planet.position.0 as int, planet.position.1 as int,
        ship.pos().0 as int, ship.pos().1 as int)) - planet.radius;
    if surface < danger {
        let falloff = crate::navigate::muldiv(surface, FP_ONE as int, danger);
        let frac: int = if falloff > FP_ONE as int { 0 }
            else if falloff < 0 { FP_ONE as int }
            else { FP_ONE as int - falloff };
        let dmg = crate::consts::MIN_EXPLOSION_DAMAGE as int
            + frac * (crate::consts::MAX_EXPLOSION_DAMAGE as int - crate::consts::MIN_EXPLOSION_DAMAGE as int)
                / (FP_ONE as int);
        if dmg > ship.hp as int { ship.hp as int } else { dmg }
    } else {
        0
    }
}

/// Production still owed before a new ship spawns, never negative.
pub open spec fn spec_remaining_production(current: int) -> int {
    if current >= crate::consts::SHIP_COST as int { 0 } else { crate::consts::SHIP_COST as int - current }
}

/// The whole per-turn snapshot.
#[derive(Clone, Debug)]
pub struct GameState {
    pub players: Vec<Player>,
    pub planets: Vec<Planet>,
}

impl GameState {
    pub open spec fn wf(self) -> bool {
        (forall|i: int| 0 <= i < self.players.len() ==> (#[trigger] self.players[i]).wf())
        && (forall|i: int| 0 <= i < self.planets.len() ==> (#[trigger] self.planets[i]).wf())
        && self.players.len() <= 16
        && self.planets.len() <= 1_000
    }
}

/// One participant and its ships.
#[derive(Clone, Debug)]
pub struct Player {
    pub id: i32,
    pub ships: Vec<Ship>,
    /// fleet size carried as a scaled scalar
    pub strength: i64,
}

impl Player {
    pub open spec fn wf(self) -> bool {
        (forall|i: int| 0 <= i < self.ships.len() ==> (#[trigger] self.ships[i]).wf())
        && self.ships.len() <= 5_000
    }

    pub fn all_ships(&self) -> (ships: &Vec<Ship>)
        ensures
            ships@ == self.ships@,
    {
        &self.ships
    }
}

/// Squared distance between two positions, exactly.
pub fn distance_sq(a: Position, b: Position) -> (r: i64)
    requires
        pos_in_range(a),
        pos_in_range(b),
    ensures
        r == dist_sq(a.0 as int, a.1 as int, b.0 as int, b.1 as int),
        0 <= r <= 80_000_000_000_000_000,
{
    let dx: i64 = b.0 - a.0;
    let dy: i64 = b.1 - a.1;
    proof {
        lemma_sq_bound(dx as int, 200_000_000);
        lemma_sq_bound(dy as int, 200_000_000);
    }
    dx * dx + dy * dy
}

/// Whether two positions are strictly nearer than `query`, decided on
/// squared distances.
pub fn distance_lt(a: Position, b: Position, query: i64) -> (r: bool)
    requires
        pos_in_range(a),
        pos_in_range(b),
        0 <= query <= 100_000_000,
    ensures
        r == (dist_sq(a.0 as int, a.1 as int, b.0 as int, b.1 as int) < query * query),
{
    proof {
        lemma_sq_bound(query as int, 100_000_000);
    }
    distance_sq(a, b) < query * query
}

/// Whether `d` is the floor of the square root of `n`.
pub open spec fn is_sqrt_floor(d: int, n: int) -> bool {
    0 <= d && d * d <= n && n < (d + 1) * (d + 1)
}

/// The floor of the square root of a non-negative integer.
pub open spec fn sqrt_floor(n: int) -> int {
    choose|d: int| is_sqrt_floor(d, n)
}

/// The floor of the square root is unique, so any witness is it.
pub proof fn lemma_sqrt_floor_unique(d: int, n: int)
    requires
        is_sqrt_floor(d, n),
    ensures
        sqrt_floor(n) == d,
{
    assert(is_sqrt_floor(sqrt_floor(n), n)) by {
        assert(exists|e: int| is_sqrt_floor(e, n));
    }
    let e = sqrt_floor(n);
    if e < d {
        assert((e + 1) * (e + 1) <= d * d) by (nonlinear_arith)
            requires 0 <= e && e < d;
        assert(false);
    }
    if d < e {
        assert((d + 1) * (d + 1) <= e * e) by (nonlinear_arith)
            requires 0 <= d && d < e;
        assert(false);
    }
}

/// The integer square root: the greatest whole value whose square does
/// not exceed `n`.
pub fn isqrt64(n: i64) -> (r: i64)
    requires
        0 <= n < 9_000_000_000_000_000_000,
    ensures
        0 <= r,
        r * r <= n,
        n < (r + 1) * (r + 1),
        r == sqrt_floor(n as int),
{
    let r = isqrt64_inner(n);
    proof { lemma_sqrt_floor_unique(r as int, n as int); }
    r
}

fn isqrt64_inner(n: i64) -> (r: i64)
    requires
        0 <= n < 9_000_000_000_000_000_000,
    ensures
        0 <= r,
        r * r <= n,
        n < (r + 1) * (r + 1),
{
    let mut lo: i64 = 0;
    let mut hi: i64 = 3_000_000_000;
    proof {
        lemma_sq_bound(hi as int, 3_000_000_000);
        assert(hi * hi == 9_000_000_000_000_000_000) by (nonlinear_arith)
            requires hi == 3_000_000_000i64;
    }
    while lo + 1 < hi
        invariant
            0 <= lo < hi <= 3_000_000_000,
            lo * lo <= n,
            n < hi * hi,
        decreases hi - lo,
    {
        let mid: i64 = lo + (hi - lo) / 2;
        proof {
            lemma_sq_bound(mid as int, 3_000_000_000);
        }
        if mid * mid <= n {
            lo = mid;
        } else {
            hi = mid;
        }
    }
    lo
}

/// The distance between two positions, in scaled units, rounded down.
pub fn distance_fp(a: Position, b: Position) -> (r: i64)
    requires
        pos_in_range(a),
        pos_in_range(b),
    ensures
        0 <= r,
        r == sqrt_floor(dist_sq(a.0 as int, a.1 as int, b.0 as int, b.1 as int)),
        is_sqrt_floor(r as int, dist_sq(a.0 as int, a.1 as int, b.0 as int, b.1 as int)),
        r <= 300_000_000,
{
    let dsq = distance_sq(a, b);
    let r = isqrt64(dsq);
    proof {
        if r > 300_000_000 {
            assert(r * r > 80_000_000_000_000_000) by (nonlinear_arith)
                requires r > 300_000_000;
        }
    }
    r
}

} // verus!
