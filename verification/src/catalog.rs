//! The per-turn map: who owns which ships, and the obstacle catalog
//! that each action kind navigates against.
//!
//! Each action kind composes its own mixture of stationary and moving
//! obstacles: all planets, own ships, docked enemies at their physical
//! radius, and free enemies either at their physical radius or widened
//! to their weapon's danger radius, depending on whether the action
//! intends to avoid combat.

use vstd::prelude::*;
use crate::consts::{SHIP_RADIUS, WEAPON_RADIUS};
use crate::entities::{GameState, Obstacle, Planet, Player, Position, Ship, DockingStatus, obstacle_ok, position_ok, distance_fp};
use crate::geom::dist_sq;

verus! {

/// Which ships a catalog pass selects, and at which radius.  The
/// `excluded` identity a pass carries is a ship for the first
/// selector and a spared player for the last two.
#[derive(Clone, Copy, PartialEq, Eq, Structural, Debug)]
pub enum ObSelect {
    /// every ship except one, at its physical radius
    AllButOnePhysical,
    /// ships that are not free (docking, docked or undocking), physical radius
    NotUndockedPhysical,
    /// free ships, widened to their weapon's danger radius
    UndockedDanger,
    /// free ships, physical radius
    UndockedPhysical,
    /// not-free ships of every player but one, physical radius
    NotUndockedSparing,
    /// free ships of every player but one, danger radius
    UndockedDangerSparing,
}

/// The obstacle a planet contributes: its danger zone when doomed,
/// else its physical disc.
pub open spec fn planet_obstacle(p: Planet) -> Obstacle {
    Obstacle {
        position: p.position,
        radius: if p.doomed { p.spec_explosion_radius() as i64 } else { p.radius },
        velocity_x: 0i64,
        velocity_y: 0i64,
    }
}

/// The obstacle a ship contributes under a selector.
pub open spec fn ship_obstacle(sel: ObSelect, s: Ship) -> Obstacle {
    Obstacle {
        position: s.pos(),
        radius: if sel == ObSelect::UndockedDanger || sel == ObSelect::UndockedDangerSparing {
            WEAPON_RADIUS
        } else {
            SHIP_RADIUS
        },
        velocity_x: s.velocity_x,
        velocity_y: s.velocity_y,
    }
}

/// Whether a selector picks a ship.
pub open spec fn selected(sel: ObSelect, s: Ship, excluded: i32) -> bool {
    match sel {
        ObSelect::AllButOnePhysical => s.id != excluded,
        ObSelect::NotUndockedPhysical => s.docking_status != DockingStatus::UNDOCKED,
        ObSelect::UndockedDanger => s.docking_status == DockingStatus::UNDOCKED,
        ObSelect::UndockedPhysical => s.docking_status == DockingStatus::UNDOCKED,
        ObSelect::NotUndockedSparing => s.docking_status != DockingStatus::UNDOCKED && s.owner_id != excluded,
        ObSelect::UndockedDangerSparing => s.docking_status == DockingStatus::UNDOCKED && s.owner_id != excluded,
    }
}

/// The obstacles of the selected ships of one ship list, in order.
pub open spec fn ship_obs(ships: Seq<Ship>, sel: ObSelect, excluded: i32) -> Seq<Obstacle>
    decreases ships.len(),
{
    if ships.len() == 0 {
        Seq::empty()
    } else {
        let rest = ship_obs(ships.drop_last(), sel, excluded);
        if selected(sel, ships.last(), excluded) {
            rest.push(ship_obstacle(sel, ships.last()))
        } else {
            rest
        }
    }
}

/// The obstacles contributed by every player on the chosen side
/// (own side when `mine`, every other player otherwise), in order.
pub open spec fn side_obs(players: Seq<Player>, my_id: i32, mine: bool, sel: ObSelect, excluded: i32) -> Seq<Obstacle>
    decreases players.len(),
{
    if players.len() == 0 {
        Seq::empty()
    } else {
        let rest = side_obs(players.drop_last(), my_id, mine, sel, excluded);
        if (players.last().id == my_id) == mine {
            rest + ship_obs(players.last().ships@, sel, excluded)
        } else {
            rest
        }
    }
}

/// The obstacles of all planets, in order.
pub open spec fn planet_obs(planets: Seq<Planet>) -> Seq<Obstacle>
    decreases planets.len(),
{
    if planets.len() == 0 {
        Seq::empty()
    } else {
        planet_obs(planets.drop_last()).push(planet_obstacle(planets.last()))
    }
}

/// The ships of every player, own first in player order, flattened.
pub open spec fn all_ships_seq(players: Seq<Player>) -> Seq<Ship>
    decreases players.len(),
{
    if players.len() == 0 {
        Seq::empty()
    } else {
        all_ships_seq(players.drop_last()) + players.last().ships@
    }
}

/// The ships of the chosen side, flattened in player order.
pub open spec fn side_ships_seq(players: Seq<Player>, my_id: i32, mine: bool) -> Seq<Ship>
    decreases players.len(),
{
    if players.len() == 0 {
        Seq::empty()
    } else {
        let rest = side_ships_seq(players.drop_last(), my_id, mine);
        if (players.last().id == my_id) == mine {
            rest + players.last().ships@
        } else {
            rest
        }
    }
}

/// The catalog a docking, raiding or fleeing unit navigates against:
/// planets, own other ships, docked enemies, and free enemies widened
/// to their danger radius.
pub open spec fn dock_catalog(state: GameState, my_id: i32, ship_id: i32) -> Seq<Obstacle> {
    planet_obs(state.planets@)
        + side_obs(state.players@, my_id, true, ObSelect::AllButOnePhysical, ship_id)
        + side_obs(state.players@, my_id, false, ObSelect::NotUndockedPhysical, ship_id)
        + side_obs(state.players@, my_id, false, ObSelect::UndockedDanger, ship_id)
}

/// The catalog of a kamikaze raid: free enemies kept at their
/// physical radius.
pub open spec fn kamikaze_catalog(state: GameState, my_id: i32, ship_id: i32) -> Seq<Obstacle> {
    planet_obs(state.planets@)
        + side_obs(state.players@, my_id, true, ObSelect::AllButOnePhysical, ship_id)
        + side_obs(state.players@, my_id, false, ObSelect::UndockedPhysical, ship_id)
}

/// The catalog of a defending or intercepting unit: free enemies at
/// their physical radius, since closing with them is the point.
pub open spec fn defend_catalog(state: GameState, my_id: i32, ship_id: i32) -> Seq<Obstacle> {
    planet_obs(state.planets@)
        + side_obs(state.players@, my_id, true, ObSelect::AllButOnePhysical, ship_id)
        + side_obs(state.players@, my_id, false, ObSelect::NotUndockedPhysical, ship_id)
        + side_obs(state.players@, my_id, false, ObSelect::UndockedPhysical, ship_id)
}

/// The catalog of an eradication run: the hunted player's ships are
/// no obstacle at all.
pub open spec fn eradicate_catalog(state: GameState, my_id: i32, ship_id: i32, player_id: i32) -> Seq<Obstacle> {
    planet_obs(state.planets@)
        + side_obs(state.players@, my_id, true, ObSelect::AllButOnePhysical, ship_id)
        + side_obs(state.players@, my_id, false, ObSelect::NotUndockedSparing, player_id)
        + side_obs(state.players@, my_id, false, ObSelect::UndockedDangerSparing, player_id)
}

/// The per-turn map: the snapshot plus this bot's identity and the
/// world bounds, in scaled units.
pub struct GameMap {
    pub my_id: i32,
    pub width: i64,
    pub height: i64,
    pub state: GameState,
}

impl GameMap {
    /// A well-formed map: a well-formed snapshot on a bounded world.
    pub open spec fn wf(self) -> bool {
        self.state.wf()
        && 0 < self.width <= 10_000_000
        && 0 < self.height <= 10_000_000
    }

    pub fn new(my_id: i32, width: i64, height: i64, state: GameState) -> (m: GameMap)
        ensures
            m == (GameMap { my_id, width, height, state }),
    {
        GameMap { my_id, width, height, state }
    }

    pub fn all_planets(&self) -> (planets: &Vec<Planet>)
        ensures
            planets@ == self.state.planets@,
    {
        &self.state.planets
    }

    pub fn center(&self) -> (c: Position)
        requires
            0 <= self.width,
            0 <= self.height,
        ensures
            c.0 == self.width / 2,
            c.1 == self.height / 2,
    {
        Position(self.width / 2, self.height / 2)
    }

    /// Appends the obstacles of all planets.
    fn append_planet_obstacles(&self, out: &mut Vec<Obstacle>)
        ensures
            final(out)@ == old(out)@ + planet_obs(self.state.planets@),
    {
        let n = self.state.planets.len();
        let mut i: usize = 0;
        while i < n
            invariant
                n == self.state.planets.len(),
                i <= n,
                out@ == old(out)@ + planet_obs(self.state.planets@.take(i as int)),
            decreases n - i,
        {
            let p = &self.state.planets[i];
            let ob = if p.is_doomed() { p.get_danger_obstacle() } else { p.get_obstacle() };
            proof {
                assert(self.state.planets@.take(i as int + 1).drop_last() =~= self.state.planets@.take(i as int));
                assert(self.state.planets@.take(i as int + 1).last() == self.state.planets@[i as int]);
            }
            out.push(ob);
            i = i + 1;
        }
        proof {
            assert(self.state.planets@.take(n as int) =~= self.state.planets@);
        }
    }

    /// Appends the obstacles of the selected ships of one side.
    fn append_side_obstacles(&self, mine: bool, sel: ObSelect, excluded: i32, out: &mut Vec<Obstacle>)
        ensures
            final(out)@ == old(out)@ + side_obs(self.state.players@, self.my_id, mine, sel, excluded),
    {
        let np = self.state.players.len();
        let mut i: usize = 0;
        while i < np
            invariant
                np == self.state.players.len(),
                i <= np,
                out@ == old(out)@ + side_obs(self.state.players@.take(i as int), self.my_id, mine, sel, excluded),
            decreases np - i,
        {
            let player = &self.state.players[i];
            proof {
                assert(self.state.players@.take(i as int + 1).drop_last() =~= self.state.players@.take(i as int));
                assert(self.state.players@.take(i as int + 1).last() == self.state.players@[i as int]);
            }
            if (player.id == self.my_id) == mine {
                let ns = player.ships.len();
                let mut j: usize = 0;
                while j < ns
                    invariant
                        ns == player.ships.len(),
                        j <= ns,
                        out@ == old(out)@
                            + side_obs(self.state.players@.take(i as int), self.my_id, mine, sel, excluded)
                            + ship_obs(player.ships@.take(j as int), sel, excluded),
                    decreases ns - j,
                {
                    let s = &player.ships[j];
                    proof {
                        assert(player.ships@.take(j as int + 1).drop_last() =~= player.ships@.take(j as int));
                        assert(player.ships@.take(j as int + 1).last() == player.ships@[j as int]);
                    }
                    let pick: bool = match sel {
                        ObSelect::AllButOnePhysical => s.id != excluded,
                        ObSelect::NotUndockedPhysical => !s.is_undocked(),
                        ObSelect::UndockedDanger => s.is_undocked(),
                        ObSelect::UndockedPhysical => s.is_undocked(),
                        ObSelect::NotUndockedSparing => !s.is_undocked() && s.owner_id != excluded,
                        ObSelect::UndockedDangerSparing => s.is_undocked() && s.owner_id != excluded,
                    };
                    if pick {
                        let ob = if matches!(sel, ObSelect::UndockedDanger | ObSelect::UndockedDangerSparing) {
                            s.get_danger_obstacle()
                        } else {
                            s.get_obstacle()
                        };
                        out.push(ob);
                    }
                    j = j + 1;
                }
                proof {
                    assert(player.ships@.take(ns as int) =~= player.ships@);
                }
            }
            i = i + 1;
        }
        proof {
            assert(self.state.players@.take(np as int) =~= self.state.players@);
        }
    }

    /// The catalog for a docking run: planets, own other ships, docked
    /// enemies, and free enemies widened to their danger radius.
    pub fn obstacles_for_dock(&self, docking_ship: &Ship) -> (obs: Vec<Obstacle>)
        ensures
            obs@ == dock_catalog(self.state, self.my_id, docking_ship.id),
    {
        let mut obs: Vec<Obstacle> = Vec::new();
        self.append_planet_obstacles(&mut obs);
        self.append_side_obstacles(true, ObSelect::AllButOnePhysical, docking_ship.id, &mut obs);
        self.append_side_obstacles(false, ObSelect::NotUndockedPhysical, docking_ship.id, &mut obs);
        self.append_side_obstacles(false, ObSelect::UndockedDanger, docking_ship.id, &mut obs);
        obs
    }

    /// The catalog for a raid: the same mixture as a docking run.
    pub fn obstacles_for_raid(&self, raiding_ship: &Ship) -> (obs: Vec<Obstacle>)
        ensures
            obs@ == dock_catalog(self.state, self.my_id, raiding_ship.id),
    {
        let mut obs: Vec<Obstacle> = Vec::new();
        self.append_planet_obstacles(&mut obs);
        self.append_side_obstacles(true, ObSelect::AllButOnePhysical, raiding_ship.id, &mut obs);
        self.append_side_obstacles(false, ObSelect::NotUndockedPhysical, raiding_ship.id, &mut obs);
        self.append_side_obstacles(false, ObSelect::UndockedDanger, raiding_ship.id, &mut obs);
        obs
    }

    /// The catalog for a kamikaze raid: free enemies kept at their
    /// physical radius, since combat is the point.
    pub fn obstacles_for_raid_kamikaze(&self, raiding_ship: &Ship) -> (obs: Vec<Obstacle>)
        ensures
            obs@ == kamikaze_catalog(self.state, self.my_id, raiding_ship.id),
    {
        let mut obs: Vec<Obstacle> = Vec::new();
        self.append_planet_obstacles(&mut obs);
        self.append_side_obstacles(true, ObSelect::AllButOnePhysical, raiding_ship.id, &mut obs);
        self.append_side_obstacles(false, ObSelect::UndockedPhysical, raiding_ship.id, &mut obs);
        obs
    }

    /// The catalog for fleeing: the same mixture as a docking run.
    pub fn obstacles_for_flee(&self, fleeing_ship: &Ship) -> (obs: Vec<Obstacle>)
        ensures
            obs@ == dock_catalog(self.state, self.my_id, fleeing_ship.id),
    {
        self.obstacles_for_dock(fleeing_ship)
    }

    /// The catalog for defending: free enemies at their physical radius,
    /// because a defender is willing to close with them.
    pub fn obstacles_for_defend(&self, defending_ship: &Ship) -> (obs: Vec<Obstacle>)
        ensures
            obs@ == defend_catalog(self.state, self.my_id, defending_ship.id),
    {
        let mut obs: Vec<Obstacle> = Vec::new();
        self.append_planet_obstacles(&mut obs);
        self.append_side_obstacles(true, ObSelect::AllButOnePhysical, defending_ship.id, &mut obs);
        self.append_side_obstacles(false, ObSelect::NotUndockedPhysical, defending_ship.id, &mut obs);
        self.append_side_obstacles(false, ObSelect::UndockedPhysical, defending_ship.id, &mut obs);
        obs
    }

    /// The catalog for intercepting: the same mixture as defending.
    pub fn obstacles_for_intercept(&self, intercepting_ship: &Ship) -> (obs: Vec<Obstacle>)
        ensures
            obs@ == defend_catalog(self.state, self.my_id, intercepting_ship.id),
    {
        self.obstacles_for_defend(intercepting_ship)
    }

    /// Every ship on the map, in player order.
    pub fn all_ships(&self) -> (ships: Vec<Ship>)
        ensures
            ships@ == all_ships_seq(self.state.players@),
    {
        let np = self.state.players.len();
        let mut out: Vec<Ship> = Vec::new();
        let mut i: usize = 0;
        while i < np
            invariant
                np == self.state.players.len(),
                i <= np,
                out@ == all_ships_seq(self.state.players@.take(i as int)),
            decreases np - i,
        {
            proof {
                assert(self.state.players@.take(i as int + 1).drop_last() =~= self.state.players@.take(i as int));
                assert(self.state.players@.take(i as int + 1).last() == self.state.players@[i as int]);
            }
            let player = &self.state.players[i];
            let ns = player.ships.len();
            let mut j: usize = 0;
            while j < ns
                invariant
                    ns == player.ships.len(),
                    j <= ns,
                    out@ == all_ships_seq(self.state.players@.take(i as int)) + player.ships@.take(j as int),
                decreases ns - j,
            {
                proof {
                    assert(player.ships@.take(j as int + 1) =~= player.ships@.take(j as int).push(player.ships@[j as int]));
                }
                out.push(player.ships[j]);
                j = j + 1;
            }
            proof {
                assert(player.ships@.take(ns as int) =~= player.ships@);
            }
            i = i + 1;
        }
        proof {
            assert(self.state.players@.take(np as int) =~= self.state.players@);
        }
        out
    }

    /// The ships of the chosen side, in player order.
    pub fn side_ships(&self, mine: bool) -> (ships: Vec<Ship>)
        ensures
            ships@ == side_ships_seq(self.state.players@, self.my_id, mine),
    {
        let np = self.state.players.len();
        let mut out: Vec<Ship> = Vec::new();
        let mut i: usize = 0;
        while i < np
            invariant
                np == self.state.players.len(),
                i <= np,
                out@ == side_ships_seq(self.state.players@.take(i as int), self.my_id, mine),
            decreases np - i,
        {
            proof {
                assert(self.state.players@.take(i as int + 1).drop_last() =~= self.state.players@.take(i as int));
                assert(self.state.players@.take(i as int + 1).last() == self.state.players@[i as int]);
            }
            let player = &self.state.players[i];
            if (player.id == self.my_id) == mine {
                let ns = player.ships.len();
                let mut j: usize = 0;
                while j < ns
                    invariant
                        ns == player.ships.len(),
                        j <= ns,
                        out@ == side_ships_seq(self.state.players@.take(i as int), self.my_id, mine)
                            + player.ships@.take(j as int),
                    decreases ns - j,
                {
                    proof {
                        assert(player.ships@.take(j as int + 1) =~= player.ships@.take(j as int).push(player.ships@[j as int]));
                    }
                    out.push(player.ships[j]);
                    j = j + 1;
                }
                proof {
                    assert(player.ships@.take(ns as int) =~= player.ships@);
                }
            }
            i = i + 1;
        }
        proof {
            assert(self.state.players@.take(np as int) =~= self.state.players@);
        }
        out
    }

    /// This bot's own ships.
    pub fn my_ships(&self) -> (ships: Vec<Ship>)
        ensures
            ships@ == side_ships_seq(self.state.players@, self.my_id, true),
    {
        self.side_ships(true)
    }

    /// Every other player's ships.
    pub fn enemy_ships(&self) -> (ships: Vec<Ship>)
        ensures
            ships@ == side_ships_seq(self.state.players@, self.my_id, false),
    {
        self.side_ships(false)
    }

    /// The catalog for eradicating one player: obstacles as for a
    /// docking run, but the hunted player's ships are no obstacle at
    /// all.
    pub fn obstacles_for_eradicate(&self, ship: &Ship, player_id: i32) -> (obs: Vec<Obstacle>)
        ensures
            obs@ == eradicate_catalog(self.state, self.my_id, ship.id, player_id),
    {
        let mut obs: Vec<Obstacle> = Vec::new();
        self.append_planet_obstacles(&mut obs);
        self.append_side_obstacles(true, ObSelect::AllButOnePhysical, ship.id, &mut obs);
        self.append_side_obstacles(false, ObSelect::NotUndockedSparing, player_id, &mut obs);
        self.append_side_obstacles(false, ObSelect::UndockedDangerSparing, player_id, &mut obs);
        obs
    }

    /// The catalog for a raid pressed home against a beaten defense:
    /// a free enemy that could defend the target keeps only its
    /// physical radius, every other free enemy its danger radius.
    pub fn obstacles_for_raid_ignore_defenders(&self, raiding_ship: &Ship, target_ship: &Ship) -> (obs: Vec<Obstacle>)
        requires
            self.wf(),
            target_ship.wf(),
        ensures
            obs@ == wary_raid_catalog(self.state, self.my_id, raiding_ship.id, *target_ship),
    {
        let mut obs: Vec<Obstacle> = Vec::new();
        self.append_planet_obstacles(&mut obs);
        self.append_side_obstacles(true, ObSelect::AllButOnePhysical, raiding_ship.id, &mut obs);
        self.append_side_obstacles(false, ObSelect::NotUndockedPhysical, raiding_ship.id, &mut obs);
        self.append_wary_obstacles(target_ship, &mut obs);
        obs
    }

    /// Appends every other player's free ships, defenders of the
    /// target at their physical radius, the rest at their danger
    /// radius.
    fn append_wary_obstacles(&self, target: &Ship, out: &mut Vec<Obstacle>)
        requires
            self.wf(),
            target.wf(),
        ensures
            final(out)@ == old(out)@ + wary_side_obs(self.state.players@, self.my_id, *target),
    {
        let np = self.state.players.len();
        let mut i: usize = 0;
        while i < np
            invariant
                np == self.state.players@.len(),
                i <= np,
                out@ == old(out)@ + wary_side_obs(self.state.players@.take(i as int), self.my_id, *target),
            decreases np - i,
        {
            let player = &self.state.players[i];
            proof {
                assert(self.state.players@.take(i as int + 1).drop_last() =~= self.state.players@.take(i as int));
                assert(self.state.players@.take(i as int + 1).last() == self.state.players@[i as int]);
            }
            if player.id != self.my_id {
                let ns = player.ships.len();
                let mut j: usize = 0;
                while j < ns
                    invariant
                        ns == player.ships.len(),
                        j <= ns,
                        i < np,
                        out@ == old(out)@
                            + wary_side_obs(self.state.players@.take(i as int), self.my_id, *target)
                            + wary_ship_obs(player.ships@.take(j as int), *target),
                    decreases ns - j,
                {
                    let s = &player.ships[j];
                    proof {
                        assert(player.ships@.take(j as int + 1).drop_last() =~= player.ships@.take(j as int));
                        assert(player.ships@.take(j as int + 1).last() == player.ships@[j as int]);
                        assert(self.state.players@[i as int].wf());
                        assert(s.wf());
                    }
                    if s.is_undocked() {
                        let defender = s.owner_id == target.owner_id && s.is_undocked()
                            && crate::entities::distance_lt(s.get_position(), target.get_position(),
                                crate::consts::MAX_SPEED * crate::consts::FP_ONE);
                        let ob = if defender { s.get_obstacle() } else { s.get_danger_obstacle() };
                        out.push(ob);
                    }
                    j = j + 1;
                }
                proof {
                    assert(player.ships@.take(ns as int) =~= player.ships@);
                }
            }
            i = i + 1;
        }
        proof {
            assert(self.state.players@.take(np as int) =~= self.state.players@);
        }
    }

    /// This bot's own player record, when its identity indexes the
    /// player list and matches, as the protocol promises.
    pub fn get_me(&self) -> (r: Option<&Player>)
        ensures
            match r {
                Some(p) => 0 <= self.my_id < self.state.players@.len()
                    && *p == self.state.players@[self.my_id as int],
                None => !(0 <= self.my_id < self.state.players@.len()),
            },
    {
        if self.my_id >= 0 && (self.my_id as usize) < self.state.players.len() {
            Some(&self.state.players[self.my_id as usize])
        } else {
            None
        }
    }

    /// The first ship on the map with the given identity.
    pub fn get_ship(&self, ship_id: i32) -> (r: Option<Ship>)
        ensures
            match r {
                Some(s) => s.id == ship_id
                    && all_ships_seq(self.state.players@).contains(s),
                None => forall|i: int| 0 <= i < all_ships_seq(self.state.players@).len()
                    ==> (#[trigger] all_ships_seq(self.state.players@)[i]).id != ship_id,
            },
    {
        let all = self.all_ships();
        let n = all.len();
        let mut i: usize = 0;
        while i < n
            invariant
                i <= n,
                n == all@.len(),
                all@ == all_ships_seq(self.state.players@),
                forall|k: int| 0 <= k < i ==> (#[trigger] all@[k]).id != ship_id,
            decreases n - i,
        {
            if all[i].id == ship_id {
                proof {
                    assert(all@.contains(all@[i as int]));
                }
                return Some(all[i]);
            }
            i = i + 1;
        }
        None
    }

    /// The stationary candidates and their clearance radii, planets
    /// first, then every ship that is not free.
    fn stat_cands_vec(&self) -> (cands: Vec<(i64, Obstacle)>)
        requires
            self.wf(),
        ensures
            cands@ == stat_cands(self.state),
            forall|i: int| 0 <= i < cands@.len() ==> stat_cand_ok(#[trigger] cands@[i]),
    {
        let mut cands: Vec<(i64, Obstacle)> = Vec::new();
        let n = self.state.planets.len();
        let mut i: usize = 0;
        while i < n
            invariant
                i <= n,
                cands@ == planet_stat_cands(self.state.planets@.take(i as int)),
                forall|k: int| 0 <= k < cands@.len() ==> stat_cand_ok(#[trigger] cands@[k]),
            decreases n - i,
        {
            let p = &self.state.planets[i];
            proof {
                assert(self.state.planets@.take(i as int + 1).drop_last() =~= self.state.planets@.take(i as int));
                assert(self.state.planets@.take(i as int + 1).last() == self.state.planets@[i as int]);
            }
            cands.push((p.get_radius(), p.get_obstacle()));
            i = i + 1;
        }
        proof {
            assert(self.state.planets@.take(n as int) =~= self.state.planets@);
        }
        let ships = self.all_ships();
        proof {
            lemma_all_ships_wf(self.state.players@, self.my_id);
        }
        let ns = ships.len();
        let mut j: usize = 0;
        while j < ns
            invariant
                j <= ns,
                cands@ == planet_stat_cands(self.state.planets@)
                    + ship_stat_cands(ships@.take(j as int)),
                forall|k: int| 0 <= k < cands@.len() ==> stat_cand_ok(#[trigger] cands@[k]),
            decreases ns - j,
        {
            let s = &ships[j];
            proof {
                assert(ships@.take(j as int + 1).drop_last() =~= ships@.take(j as int));
                assert(ships@.take(j as int + 1).last() == ships@[j as int]);
            }
            if !s.is_undocked() {
                cands.push((SHIP_RADIUS, s.get_obstacle()));
            }
            j = j + 1;
        }
        proof {
            assert(ships@.take(ns as int) =~= ships@);
        }
        cands
    }

    /// The nearest stationary obstacle, by surface distance from
    /// `start`, whose clearance circle the straight segment to
    /// `destination` crosses; `None` when the segment crosses none.
    pub fn closest_stationary_obstacle(
        &self, start: &Position, destination: &Position, fudge: i64,
    ) -> (r: Option<Obstacle>)
        requires
            self.wf(),
            position_ok(*start),
            position_ok(*destination),
            0 <= fudge <= 10_000,
        ensures
            closest_choice_ok(self.state, *start, *destination, fudge as int, r),
            r matches Some(ob) ==> obstacle_ok(ob),
    {
        let cands = self.stat_cands_vec();
        let n = cands.len();
        let mut best: Option<Obstacle> = None;
        let mut best_surf: i64 = 0;
        let ghost mut best_i: int = 0;
        let mut i: usize = 0;
        while i < n
            invariant
                i <= n,
                n == cands@.len(),
                match best {
                    None => forall|k: int| 0 <= k < i
                        ==> !cand_hits(*start, *destination, #[trigger] cands@[k], fudge as int),
                    Some(ob) => 0 <= best_i < i
                        && cand_hits(*start, *destination, cands@[best_i], fudge as int)
                        && cands@[best_i].1 == ob
                        && best_surf == cand_surf(*start, cands@[best_i], fudge as int)
                        && (forall|k: int| 0 <= k < i
                            && cand_hits(*start, *destination, #[trigger] cands@[k], fudge as int)
                            ==> cand_surf(*start, cands@[k], fudge as int) >= best_surf)
                        && (forall|k: int| 0 <= k < best_i
                            && cand_hits(*start, *destination, #[trigger] cands@[k], fudge as int)
                            ==> cand_surf(*start, cands@[k], fudge as int) > best_surf),
                },
            decreases n - i,
        {
            let (rad, ob) = cands[i];
            let surf = distance_fp(*start, ob.position) - (SHIP_RADIUS + rad + fudge);
            let better = match best {
                None => true,
                Some(_) => surf < best_surf,
            };
            if better {
                let hit = crate::geom::intersect_segment_circle(
                    start.0, start.1, destination.0, destination.1,
                    ob.position.0, ob.position.1, rad, fudge + SHIP_RADIUS,
                );
                if hit {
                    best = Some(ob);
                    best_surf = surf;
                    proof { best_i = i as int; }
                }
            }
            i = i + 1;
        }
        best
    }
}

/// The catalog of a raid pressed against a beaten defense.
pub open spec fn wary_raid_catalog(state: GameState, my_id: i32, ship_id: i32, target: Ship) -> Seq<Obstacle> {
    planet_obs(state.planets@)
        + side_obs(state.players@, my_id, true, ObSelect::AllButOnePhysical, ship_id)
        + side_obs(state.players@, my_id, false, ObSelect::NotUndockedPhysical, ship_id)
        + wary_side_obs(state.players@, my_id, target)
}

/// The obstacles of one player's free ships for a pressed raid:
/// defenders of the target at their physical radius, the rest at
/// their danger radius.
pub open spec fn wary_ship_obs(ships: Seq<Ship>, target: Ship) -> Seq<Obstacle>
    decreases ships.len(),
{
    if ships.len() == 0 {
        Seq::empty()
    } else {
        let rest = wary_ship_obs(ships.drop_last(), target);
        let s = ships.last();
        if s.docking_status == DockingStatus::UNDOCKED {
            let sel = if crate::value::is_defender(s, target) {
                ObSelect::UndockedPhysical
            } else {
                ObSelect::UndockedDanger
            };
            rest.push(ship_obstacle(sel, s))
        } else {
            rest
        }
    }
}

/// `wary_ship_obs` over every opposing player, in player order.
pub open spec fn wary_side_obs(players: Seq<Player>, my_id: i32, target: Ship) -> Seq<Obstacle>
    decreases players.len(),
{
    if players.len() == 0 {
        Seq::empty()
    } else {
        let rest = wary_side_obs(players.drop_last(), my_id, target);
        if players.last().id != my_id {
            rest + wary_ship_obs(players.last().ships@, target)
        } else {
            rest
        }
    }
}

/// A stationary candidate whose fields keep the tests exact.
pub open spec fn stat_cand_ok(c: (i64, Obstacle)) -> bool {
    position_ok(c.1.position) && 0 <= c.0 <= 20_000_000 && obstacle_ok(c.1)
}

/// A planet as a stationary candidate: tested at its effective radius,
/// reported as its physical disc.
pub open spec fn planet_stat_cand(p: Planet) -> (i64, Obstacle) {
    (p.spec_effective_radius() as i64, Obstacle {
        position: p.position,
        radius: p.radius,
        velocity_x: 0i64,
        velocity_y: 0i64,
    })
}

/// A ship as a stationary candidate: its physical disc, with its
/// scratch velocity carried along for the caller.
pub open spec fn ship_stat_cand(s: Ship) -> (i64, Obstacle) {
    (SHIP_RADIUS, Obstacle {
        position: s.pos(),
        radius: SHIP_RADIUS,
        velocity_x: s.velocity_x,
        velocity_y: s.velocity_y,
    })
}

pub open spec fn planet_stat_cands(planets: Seq<Planet>) -> Seq<(i64, Obstacle)>
    decreases planets.len(),
{
    if planets.len() == 0 {
        Seq::empty()
    } else {
        planet_stat_cands(planets.drop_last()).push(planet_stat_cand(planets.last()))
    }
}

pub open spec fn ship_stat_cands(ships: Seq<Ship>) -> Seq<(i64, Obstacle)>
    decreases ships.len(),
{
    if ships.len() == 0 {
        Seq::empty()
    } else {
        let rest = ship_stat_cands(ships.drop_last());
        if ships.last().docking_status != DockingStatus::UNDOCKED {
            rest.push(ship_stat_cand(ships.last()))
        } else {
            rest
        }
    }
}

/// Every stationary candidate of the snapshot: planets, then every
/// ship that is not free.
pub open spec fn stat_cands(state: GameState) -> Seq<(i64, Obstacle)> {
    planet_stat_cands(state.planets@) + ship_stat_cands(all_ships_seq(state.players@))
}

/// Whether the straight segment crosses a candidate's clearance circle.
pub open spec fn cand_hits(start: Position, dest: Position, c: (i64, Obstacle), fudge: int) -> bool {
    crate::geom::seg_circle_hit(
        start.0 as int, start.1 as int, dest.0 as int, dest.1 as int,
        c.1.position.0 as int, c.1.position.1 as int,
        c.0 as int + fudge + SHIP_RADIUS as int)
}

/// A candidate's surface distance from `start`, in scaled units.
pub open spec fn cand_surf(start: Position, c: (i64, Obstacle), fudge: int) -> int {
    crate::entities::sqrt_floor(dist_sq(start.0 as int, start.1 as int, c.1.position.0 as int, c.1.position.1 as int))
        - (SHIP_RADIUS as int + c.0 as int + fudge)
}

/// What the nearest-blocking-obstacle query may answer: `None` only
/// when no stationary candidate blocks the segment, and an obstacle
/// only when it blocks it, none blocking lies nearer by surface
/// distance, and every earlier blocking candidate lies strictly
/// farther -- the first of the nearest blockers wins a tie.
pub open spec fn closest_choice_ok(state: GameState, start: Position, dest: Position, fudge: int, r: Option<Obstacle>) -> bool {
    match r {
        None => forall|i: int| 0 <= i < stat_cands(state).len()
            ==> !cand_hits(start, dest, #[trigger] stat_cands(state)[i], fudge),
        Some(ob) => exists|i: int| 0 <= i < stat_cands(state).len()
            && cand_hits(start, dest, #[trigger] stat_cands(state)[i], fudge)
            && stat_cands(state)[i].1 == ob
            && (forall|j: int| 0 <= j < stat_cands(state).len()
                && cand_hits(start, dest, #[trigger] stat_cands(state)[j], fudge)
                ==> cand_surf(start, stat_cands(state)[j], fudge)
                    >= cand_surf(start, stat_cands(state)[i], fudge))
            && (forall|j: int| 0 <= j < i
                && cand_hits(start, dest, #[trigger] stat_cands(state)[j], fudge)
                ==> cand_surf(start, stat_cands(state)[j], fudge)
                    > cand_surf(start, stat_cands(state)[i], fudge)),
    }
}

/// Whether no stationary candidate blocks the straight segment.
pub open spec fn no_stat_hit(state: GameState, start: Position, dest: Position, fudge: int) -> bool {
    forall|i: int| 0 <= i < stat_cands(state).len()
        ==> !cand_hits(start, dest, #[trigger] stat_cands(state)[i], fudge)
}

/// Every obstacle a well-formed planet list contributes is
/// well-formed.
pub proof fn lemma_planet_obs_ok(planets: Seq<Planet>)
    requires
        forall|i: int| 0 <= i < planets.len() ==> (#[trigger] planets[i]).wf(),
    ensures
        forall|i: int| 0 <= i < planet_obs(planets).len() ==> obstacle_ok(#[trigger] planet_obs(planets)[i]),
    decreases planets.len(),
{
    if planets.len() > 0 {
        assert forall|i: int| 0 <= i < planets.drop_last().len()
            implies (#[trigger] planets.drop_last()[i]).wf() by {
            assert(planets.drop_last()[i] == planets[i]);
        }
        lemma_planet_obs_ok(planets.drop_last());
        assert(planets.last().wf());
        assert(obstacle_ok(planet_obstacle(planets.last())));
        assert forall|i: int| 0 <= i < planet_obs(planets).len()
            implies obstacle_ok(#[trigger] planet_obs(planets)[i]) by {
            let rest = planet_obs(planets.drop_last());
            if i < rest.len() {
                assert(planet_obs(planets)[i] == rest[i]);
            } else {
                assert(planet_obs(planets)[i] == planet_obstacle(planets.last()));
            }
        }
    }
}

/// Every obstacle a well-formed ship list contributes is well-formed.
pub proof fn lemma_ship_obs_ok(ships: Seq<Ship>, sel: ObSelect, excluded: i32)
    requires
        forall|i: int| 0 <= i < ships.len() ==> (#[trigger] ships[i]).wf(),
    ensures
        forall|i: int| 0 <= i < ship_obs(ships, sel, excluded).len()
            ==> obstacle_ok(#[trigger] ship_obs(ships, sel, excluded)[i]),
    decreases ships.len(),
{
    if ships.len() > 0 {
        assert forall|i: int| 0 <= i < ships.drop_last().len()
            implies (#[trigger] ships.drop_last()[i]).wf() by {
            assert(ships.drop_last()[i] == ships[i]);
        }
        lemma_ship_obs_ok(ships.drop_last(), sel, excluded);
        assert(ships.last().wf());
        assert(obstacle_ok(ship_obstacle(sel, ships.last())));
        assert forall|i: int| 0 <= i < ship_obs(ships, sel, excluded).len()
            implies obstacle_ok(#[trigger] ship_obs(ships, sel, excluded)[i]) by {
            let rest = ship_obs(ships.drop_last(), sel, excluded);
            if i < rest.len() {
                assert(ship_obs(ships, sel, excluded)[i] == rest[i]);
            } else {
                assert(ship_obs(ships, sel, excluded)[i] == ship_obstacle(sel, ships.last()));
            }
        }
    }
}

/// Every obstacle a well-formed side contributes is well-formed.
pub proof fn lemma_side_obs_ok(players: Seq<Player>, my_id: i32, mine: bool, sel: ObSelect, excluded: i32)
    requires
        forall|i: int| 0 <= i < players.len() ==> (#[trigger] players[i]).wf(),
    ensures
        forall|i: int| 0 <= i < side_obs(players, my_id, mine, sel, excluded).len()
            ==> obstacle_ok(#[trigger] side_obs(players, my_id, mine, sel, excluded)[i]),
    decreases players.len(),
{
    if players.len() > 0 {
        assert forall|i: int| 0 <= i < players.drop_last().len()
            implies (#[trigger] players.drop_last()[i]).wf() by {
            assert(players.drop_last()[i] == players[i]);
        }
        lemma_side_obs_ok(players.drop_last(), my_id, mine, sel, excluded);
        assert(players.last().wf());
        lemma_ship_obs_ok(players.last().ships@, sel, excluded);
        assert forall|i: int| 0 <= i < side_obs(players, my_id, mine, sel, excluded).len()
            implies obstacle_ok(#[trigger] side_obs(players, my_id, mine, sel, excluded)[i]) by {
            let rest = side_obs(players.drop_last(), my_id, mine, sel, excluded);
            if i < rest.len() {
                assert(side_obs(players, my_id, mine, sel, excluded)[i] == rest[i]);
            } else {
                assert(side_obs(players, my_id, mine, sel, excluded)[i]
                    == ship_obs(players.last().ships@, sel, excluded)[i - rest.len()]);
            }
        }
    }
}

/// Every obstacle of a catalog built over a well-formed snapshot is
/// well-formed: a catalog is planet obstacles followed by up to three
/// side passes.
pub proof fn lemma_catalog_ok(state: GameState, my_id: i32, obs: Seq<Obstacle>, excluded: i32)
    requires
        state.wf(),
        obs == dock_catalog(state, my_id, excluded)
            || obs == defend_catalog(state, my_id, excluded)
            || obs == kamikaze_catalog(state, my_id, excluded),
    ensures
        forall|i: int| 0 <= i < obs.len() ==> obstacle_ok(#[trigger] obs[i]),
{
    lemma_planet_obs_ok(state.planets@);
    lemma_side_obs_ok(state.players@, my_id, true, ObSelect::AllButOnePhysical, excluded);
    lemma_side_obs_ok(state.players@, my_id, false, ObSelect::NotUndockedPhysical, excluded);
    lemma_side_obs_ok(state.players@, my_id, false, ObSelect::UndockedDanger, excluded);
    lemma_side_obs_ok(state.players@, my_id, false, ObSelect::UndockedPhysical, excluded);
}

/// Every obstacle of the eradication catalog over a well-formed
/// snapshot is well-formed.
pub proof fn lemma_catalog_ok_sparing(state: GameState, my_id: i32, obs: Seq<Obstacle>, ship_id: i32, player_id: i32)
    requires
        state.wf(),
        obs == eradicate_catalog(state, my_id, ship_id, player_id),
    ensures
        forall|i: int| 0 <= i < obs.len() ==> obstacle_ok(#[trigger] obs[i]),
{
    lemma_planet_obs_ok(state.planets@);
    lemma_side_obs_ok(state.players@, my_id, true, ObSelect::AllButOnePhysical, ship_id);
    lemma_side_obs_ok(state.players@, my_id, false, ObSelect::NotUndockedSparing, player_id);
    lemma_side_obs_ok(state.players@, my_id, false, ObSelect::UndockedDangerSparing, player_id);
}

/// Every ship of a well-formed player list is well-formed, and there
/// are boundedly many of them.
pub proof fn lemma_all_ships_wf(players: Seq<Player>, my_id: i32)
    requires
        forall|i: int| 0 <= i < players.len() ==> (#[trigger] players[i]).wf(),
    ensures
        forall|i: int| 0 <= i < all_ships_seq(players).len() ==> (#[trigger] all_ships_seq(players)[i]).wf(),
        all_ships_seq(players).len() <= players.len() * 5_000,
    decreases players.len(),
{
    if players.len() > 0 {
        assert forall|i: int| 0 <= i < players.drop_last().len()
            implies (#[trigger] players.drop_last()[i]).wf() by {
            assert(players.drop_last()[i] == players[i]);
        }
        lemma_all_ships_wf(players.drop_last(), my_id);
        assert(players.last().wf());
        assert forall|i: int| 0 <= i < all_ships_seq(players).len()
            implies (#[trigger] all_ships_seq(players)[i]).wf() by {
            let rest = all_ships_seq(players.drop_last());
            if i < rest.len() {
                assert(all_ships_seq(players)[i] == rest[i]);
            } else {
                assert(all_ships_seq(players)[i] == players.last().ships@[i - rest.len()]);
            }
        }
    }
}

} // verus!
