//! The trajectory synthesizer: from an abstract destination to a
//! concrete bounded (speed, heading) command that provably collides
//! with nothing in the catalog handed to it.
//!
//! Headings are whole degrees, speeds whole units, as the command
//! protocol requires; the candidate space is therefore finite and the
//! search exhaustive, so a returned command is proved safe and a `None`
//! proves that no command at all, the zero-thrust stay included, is
//! safe this turn.

use vstd::prelude::*;
use crate::consts::{FP_ONE, FUDGE, MAX_SPEED, SHIP_RADIUS};
use crate::entities::{Obstacle, Position, Ship, obstacle_ok, position_ok, distance_fp, distance_sq, distance_lt, sqrt_floor};
use crate::catalog::{GameMap, closest_choice_ok, no_stat_hit};
use crate::geom::{dist_sq, moving_circles_hit, check_moving_collision, lemma_mul_bound};
use crate::trig::{cos_deg, sin_deg, cos_deg_fp, sin_deg_fp, asin_ceil, asin_deg_fp};

verus! {

/// The clearance a ship needs from a wall.
pub const NAV_MARGIN: i64 = 5_005;

/// The widest angular correction the bounded neighborhood search tries
/// on either side of the desired heading, in whole degrees.
pub const CORRECTION_LIMIT: u16 = 30;

/// The component of the displacement `(dx, dy)` along the heading `h`,
/// scaled by `FP_ONE`: the larger it is, the closer the heading points
/// at the displacement.
pub open spec fn dir_dot(dx: int, dy: int, h: int) -> int {
    dx * cos_deg(h) + dy * sin_deg(h)
}

/// The first heading among `0 .. n` that maximizes `dir_dot`.
pub open spec fn best_heading_upto(dx: int, dy: int, n: int) -> int
    decreases n,
{
    if n <= 1 {
        0
    } else {
        let prev = best_heading_upto(dx, dy, n - 1);
        if dir_dot(dx, dy, n - 1) > dir_dot(dx, dy, prev) {
            n - 1
        } else {
            prev
        }
    }
}

/// The first whole-degree heading that points most nearly along
/// `(dx, dy)`.
pub open spec fn best_heading(dx: int, dy: int) -> int {
    best_heading_upto(dx, dy, 360)
}

/// `best_heading_upto` stays in range and dominates every heading
/// below `n`.
pub proof fn lemma_best_heading_upto(dx: int, dy: int, n: int)
    requires
        1 <= n <= 360,
    ensures
        0 <= best_heading_upto(dx, dy, n) < n,
        forall|g: int| 0 <= g < n
            ==> #[trigger] dir_dot(dx, dy, g) <= dir_dot(dx, dy, best_heading_upto(dx, dy, n)),
    decreases n,
{
    if n > 1 {
        lemma_best_heading_upto(dx, dy, n - 1);
    }
}

/// The dot product against a heading's direction vector, exactly.
pub fn dir_dot_fp(dx: i64, dy: i64, h: u16) -> (r: i64)
    requires
        -200_000_000 <= dx <= 200_000_000,
        -200_000_000 <= dy <= 200_000_000,
        h < 360,
    ensures
        r == dir_dot(dx as int, dy as int, h as int),
{
    let c = cos_deg_fp(h);
    let s = sin_deg_fp(h);
    proof {
        lemma_mul_bound(dx as int, c as int, 200_000_000, 10_000);
        lemma_mul_bound(dy as int, s as int, 200_000_000, 10_000);
    }
    dx * c + dy * s
}

/// The first whole-degree heading pointing most nearly from `from`
/// towards `to`.
pub fn heading_towards(from: Position, to: Position) -> (h: u16)
    requires
        position_ok(from),
        position_ok(to),
    ensures
        h < 360,
        h == best_heading(to.0 - from.0, to.1 - from.1),
        forall|g: int| 0 <= g < 360
            ==> #[trigger] dir_dot(to.0 - from.0, to.1 - from.1, g)
                <= dir_dot(to.0 - from.0, to.1 - from.1, h as int),
{
    proof {
        lemma_best_heading_upto(to.0 - from.0, to.1 - from.1, 360);
    }
    let dx: i64 = to.0 - from.0;
    let dy: i64 = to.1 - from.1;
    let mut best: u16 = 0;
    let mut best_dot: i64 = dir_dot_fp(dx, dy, 0);
    let mut g: u16 = 1;
    while g < 360
        invariant
            1 <= g <= 360,
            best as int == best_heading_upto(dx as int, dy as int, g as int),
            best < g,
            best_dot == dir_dot(dx as int, dy as int, best as int),
        decreases 360 - g,
    {
        let d = dir_dot_fp(dx, dy, g);
        if d > best_dot {
            best = g;
            best_dot = d;
        }
        g = g + 1;
    }
    best
}

/// The velocity vector, in scaled units per turn, of a thrust at a
/// whole-unit speed along a whole-degree heading.
pub open spec fn vel_x(speed: int, heading: int) -> int {
    speed * cos_deg(heading)
}

pub open spec fn vel_y(speed: int, heading: int) -> int {
    speed * sin_deg(heading)
}

/// Whether a candidate thrust is safe: its end position keeps the wall
/// clearance on all four sides, and its linear motion over the turn
/// collides with no obstacle of the catalog, each widened by the
/// ship's radius and the safety margin.
pub open spec fn candidate_safe(
    map_w: int, map_h: int, pos: Position,
    speed: int, heading: int, obs: Seq<Obstacle>,
) -> bool {
    let vx = vel_x(speed, heading);
    let vy = vel_y(speed, heading);
    let ex = pos.0 + vx;
    let ey = pos.1 + vy;
    &&& ex >= NAV_MARGIN as int
    &&& ey >= NAV_MARGIN as int
    &&& map_w - ex >= NAV_MARGIN as int
    &&& map_h - ey >= NAV_MARGIN as int
    &&& forall|i: int| 0 <= i < obs.len() ==> !moving_circles_hit(
            pos.0 as int, pos.1 as int, vx, vy,
            (#[trigger] obs[i]).position.0 as int, obs[i].position.1 as int,
            obs[i].velocity_x as int, obs[i].velocity_y as int,
            SHIP_RADIUS as int + obs[i].radius as int + FUDGE as int)
}

/// The exact velocity of a candidate thrust.
pub fn candidate_velocity(speed: i64, heading: u16) -> (v: (i64, i64))
    requires
        0 <= speed <= MAX_SPEED,
        heading < 360,
    ensures
        v.0 == vel_x(speed as int, heading as int),
        v.1 == vel_y(speed as int, heading as int),
        -70_000 <= v.0 <= 70_000,
        -70_000 <= v.1 <= 70_000,
{
    let c = cos_deg_fp(heading);
    let s = sin_deg_fp(heading);
    proof {
        lemma_mul_bound(speed as int, c as int, 7, 10_000);
        lemma_mul_bound(speed as int, s as int, 7, 10_000);
    }
    (speed * c, speed * s)
}

/// Decides `candidate_safe` for one candidate thrust.
pub fn candidate_is_safe(
    map_w: i64, map_h: i64, pos: Position,
    speed: i64, heading: u16, obs: &Vec<Obstacle>,
) -> (r: bool)
    requires
        position_ok(pos),
        0 <= speed <= MAX_SPEED,
        heading < 360,
        0 < map_w <= 10_000_000,
        0 < map_h <= 10_000_000,
        forall|i: int| 0 <= i < obs.len() ==> obstacle_ok(#[trigger] obs@[i]),
    ensures
        r == candidate_safe(map_w as int, map_h as int, pos, speed as int, heading as int, obs@),
{
    let (vx, vy) = candidate_velocity(speed, heading);
    let ex: i64 = pos.0 + vx;
    let ey: i64 = pos.1 + vy;
    if ex < NAV_MARGIN || ey < NAV_MARGIN || map_w - ex < NAV_MARGIN || map_h - ey < NAV_MARGIN {
        return false;
    }
    let n = obs.len();
    let mut i: usize = 0;
    while i < n
        invariant
            n == obs.len(),
            i <= n,
            forall|k: int| 0 <= k < i ==> !moving_circles_hit(
                pos.0 as int, pos.1 as int, vel_x(speed as int, heading as int), vel_y(speed as int, heading as int),
                (#[trigger] obs@[k]).position.0 as int, obs@[k].position.1 as int,
                obs@[k].velocity_x as int, obs@[k].velocity_y as int,
                SHIP_RADIUS as int + obs@[k].radius as int + FUDGE as int),
        decreases n - i,
    {
        let ob = &obs[i];
        let hit = check_moving_collision(
            pos.0, pos.1, vx, vy,
            ob.position.0, ob.position.1, ob.velocity_x, ob.velocity_y,
            SHIP_RADIUS + ob.radius + FUDGE,
        );
        if hit {
            return false;
        }
        i = i + 1;
    }
    true
}

/// The circular distance between two headings, in whole degrees.
pub open spec fn ang_diff(a: int, b: int) -> int {
    let da = if a >= b { a - b } else { b - a };
    if da > 180 { 360 - da } else { da }
}

fn ang_diff_fp(a: u16, b: u16) -> (r: u16)
    requires
        a < 360,
        b < 360,
    ensures
        r == ang_diff(a as int, b as int),
{
    let da = if a >= b { a - b } else { b - a };
    if da > 180 { 360 - da } else { da }
}

/// The deflected heading around one obstacle: the heading to the
/// obstacle's centre turned by the whole-degree arcsine of the ratio
/// of its clearance radius to its distance (the tangent angle), on
/// the side that stays nearer the heading to the destination when
/// `short`, and on the other side otherwise.  A unit at or inside the
/// clearance radius turns the full quarter circle.
pub open spec fn deflect_heading(start: Position, dest: Position, opos: Position, osize: int, short: bool) -> int {
    let d = sqrt_floor(dist_sq(start.0 as int, start.1 as int, opos.0 as int, opos.1 as int));
    let a_dest = best_heading(dest.0 - start.0, dest.1 - start.1);
    let a_obs = best_heading(opos.0 - start.0, opos.1 - start.1);
    let ratio0 = if osize >= d { 10000int } else { osize * 10000 / d };
    let ratio = if ratio0 > 10000 { 10000int } else { ratio0 };
    let turn = asin_ceil(ratio);
    let plus = (a_obs + turn) % 360;
    let minus = (a_obs + 360 - turn) % 360;
    let plus_shorter = ang_diff(a_dest, plus) < ang_diff(a_dest, minus);
    if short == plus_shorter { plus } else { minus }
}

/// Both deflected headings around one obstacle: the short way first.
fn angle_around(start: Position, destination: Position, obstacle_pos: Position, obstacle_size: i64) -> (r: (u16, u16))
    requires
        position_ok(start),
        position_ok(destination),
        position_ok(obstacle_pos),
        0 <= obstacle_size <= 30_000_000,
    ensures
        r.0 < 360,
        r.1 < 360,
        r.0 == deflect_heading(start, destination, obstacle_pos, obstacle_size as int, true),
        r.1 == deflect_heading(start, destination, obstacle_pos, obstacle_size as int, false),
{
    let d = distance_fp(start, obstacle_pos);
    let a_dest = heading_towards(start, destination);
    let a_obs = heading_towards(start, obstacle_pos);
    let ratio0: i64 = if obstacle_size >= d { 10_000 } else { obstacle_size * 10_000 / d };
    proof {
        if obstacle_size < d {
            assert(0 <= obstacle_size as int * 10_000 / d as int) by (nonlinear_arith)
                requires 0 <= obstacle_size && 0 < d;
        }
    }
    let ratio: i64 = if ratio0 > 10_000 { 10_000 } else { ratio0 };
    let turn = asin_deg_fp(ratio);
    let plus: u16 = (a_obs + turn) % 360;
    let minus: u16 = (a_obs + 360 - turn) % 360;
    let plus_shorter = ang_diff_fp(a_dest, plus) < ang_diff_fp(a_dest, minus);
    if plus_shorter { (plus, minus) } else { (minus, plus) }
}

/// The short-way deflected heading around an obstacle.
pub fn short_angle_around(start: Position, destination: Position, obstacle_pos: Position, obstacle_size: i64) -> (h: u16)
    requires
        position_ok(start),
        position_ok(destination),
        position_ok(obstacle_pos),
        0 <= obstacle_size <= 30_000_000,
    ensures
        h < 360,
        h == deflect_heading(start, destination, obstacle_pos, obstacle_size as int, true),
{
    angle_around(start, destination, obstacle_pos, obstacle_size).0
}

/// The long-way deflected heading around an obstacle.
pub fn long_angle_around(start: Position, destination: Position, obstacle_pos: Position, obstacle_size: i64) -> (h: u16)
    requires
        position_ok(start),
        position_ok(destination),
        position_ok(obstacle_pos),
        0 <= obstacle_size <= 30_000_000,
    ensures
        h < 360,
        h == deflect_heading(start, destination, obstacle_pos, obstacle_size as int, false),
{
    angle_around(start, destination, obstacle_pos, obstacle_size).1
}

/// The heading a unit aims at, given the nearest obstacle blocking the
/// straight segment: straight at the destination when nothing blocks;
/// straight away from an obstacle the unit is already inside (so the
/// computation stays finite even when the path runs through the
/// obstacle's centre); otherwise deflected the short way around.
pub open spec fn aim_spec(pos: Position, dest: Position, c: Option<Obstacle>) -> int {
    match c {
        Option::None => best_heading(dest.0 - pos.0, dest.1 - pos.1),
        Option::Some(ob) => {
            if dist_sq(pos.0 as int, pos.1 as int, ob.position.0 as int, ob.position.1 as int)
                < ob.radius * ob.radius {
                best_heading(pos.0 - ob.position.0, pos.1 - ob.position.1)
            } else {
                deflect_heading(pos, dest, ob.position, SHIP_RADIUS as int + FUDGE as int + ob.radius, true)
            }
        }
    }
}

/// Decides `aim_spec` for the given blocking obstacle, if any.
pub fn aim_heading(pos: Position, dest: Position, closest: &Option<Obstacle>) -> (h: u16)
    requires
        position_ok(pos),
        position_ok(dest),
        closest matches Some(ob) ==> obstacle_ok(*ob),
    ensures
        h < 360,
        h == aim_spec(pos, dest, *closest),
{
    match closest {
        Option::Some(ob) => {
            if distance_lt(pos, ob.position, ob.radius) {
                heading_towards(ob.position, pos)
            } else {
                short_angle_around(pos, dest, ob.position, SHIP_RADIUS + FUDGE + ob.radius)
            }
        }
        Option::None => heading_towards(pos, dest),
    }
}

/// The whole-unit speed a unit asks for: the whole distance, rounded
/// to nearest, capped at the speed limit.
pub open spec fn direct_speed(pos: Position, dest: Position) -> int {
    let q = (sqrt_floor(dist_sq(pos.0 as int, pos.1 as int, dest.0 as int, dest.1 as int)) + 5000) / 10000;
    if q < MAX_SPEED as int { q } else { MAX_SPEED as int }
}

fn direct_speed_fp(pos: Position, dest: Position) -> (s: i64)
    requires
        position_ok(pos),
        position_ok(dest),
    ensures
        s == direct_speed(pos, dest),
        0 <= s <= MAX_SPEED,
{
    let d = distance_fp(pos, dest);
    let q = (d + FP_ONE / 2) / FP_ONE;
    if q < MAX_SPEED { q } else { MAX_SPEED }
}

/// A zero-speed thrust does not move, whatever its heading.
pub proof fn lemma_zero_speed(h: int)
    ensures
        vel_x(0, h) == 0,
        vel_y(0, h) == 0,
{
    assert(0 * cos_deg(h) == 0) by (nonlinear_arith);
    assert(0 * sin_deg(h) == 0) by (nonlinear_arith);
}

/// Where the desired trajectory would end: the anchor the fallback
/// grid is ranked against.
pub open spec fn grid_target(pos: Position, speed: int, aim: int) -> Position {
    Position((pos.0 + vel_x(speed, aim)) as i64, (pos.1 + vel_y(speed, aim)) as i64)
}

/// The ranking key of a grid candidate: the squared distance from
/// where the thrust ends to where the desired trajectory would have
/// ended.
pub open spec fn grid_key(pos: Position, tend: Position, s: int, hh: int) -> int {
    dist_sq(pos.0 + vel_x(s, hh), pos.1 + vel_y(s, hh), tend.0 as int, tend.1 as int)
}

/// The deterministic order of the fallback grid: nearer end point
/// first, ties broken towards lower speed, then lower heading.
pub open spec fn grid_lex_le(pos: Position, tend: Position, s1: int, h1: int, s2: int, h2: int) -> bool {
    grid_key(pos, tend, s1, h1) < grid_key(pos, tend, s2, h2)
    || (grid_key(pos, tend, s1, h1) == grid_key(pos, tend, s2, h2)
        && (s1 < s2 || (s1 == s2 && h1 <= h2)))
}

/// The first safe heading among symmetric angular offsets of growing
/// magnitude from the aim, the positive side first at each size, at
/// the given speed; nothing if the whole correction budget fails.
pub open spec fn offset_choice(w: int, h: int, pos: Position, speed: int, aim: int, obs: Seq<Obstacle>, off: int) -> Option<int>
    decreases CORRECTION_LIMIT as int + 1 - off,
{
    if off < 1 || off > CORRECTION_LIMIT as int {
        None
    } else {
        let hp = (aim + off) % 360;
        if candidate_safe(w, h, pos, speed, hp, obs) {
            Some(hp)
        } else {
            let hm = (aim + 360 - off) % 360;
            if candidate_safe(w, h, pos, speed, hm, obs) {
                Some(hm)
            } else {
                offset_choice(w, h, pos, speed, aim, obs, off + 1)
            }
        }
    }
}

/// The offset scan stops at the first safe offset: with every offset
/// below `off` unsafe on both sides, scanning from `k` is scanning
/// from `off`.
proof fn lemma_offset_scan(w: int, h: int, pos: Position, speed: int, aim: int, obs: Seq<Obstacle>, k: int, off: int)
    requires
        1 <= k <= off <= CORRECTION_LIMIT as int + 1,
        forall|o: int| k <= o < off
            ==> !candidate_safe(w, h, pos, speed, #[trigger] ((aim + o) % 360), obs)
                && !candidate_safe(w, h, pos, speed, (aim + 360 - o) % 360, obs),
    ensures
        offset_choice(w, h, pos, speed, aim, obs, k) == offset_choice(w, h, pos, speed, aim, obs, off),
    decreases off - k,
{
    if k < off {
        lemma_offset_scan(w, h, pos, speed, aim, obs, k + 1, off);
    }
}

/// The staged choice of the navigator, given the aim heading: the
/// desired trajectory itself when it is safe; else the first safe
/// heading among growing symmetric offsets at the same speed; else
/// the safe grid candidate ranked nearest to the desired end point,
/// ties towards lower speed then lower heading.  (A `None` result is
/// pinned by the no-safe-candidate clause instead.)
pub open spec fn staged_choice_ok(w: int, h: int, pos: Position, dest: Position, aim: int, obs: Seq<Obstacle>, r: Option<(i32, i32)>) -> bool {
    let ds = direct_speed(pos, dest);
    if candidate_safe(w, h, pos, ds, aim, obs) {
        r == Some((ds as i32, aim as i32))
    } else {
        match offset_choice(w, h, pos, ds, aim, obs, 1) {
            Option::Some(oh) => r == Some((ds as i32, oh as i32)),
            Option::None => {
                let tend = grid_target(pos, ds, aim);
                match r {
                    Option::Some(c) => forall|s2: int, h2: int|
                        0 <= s2 <= MAX_SPEED as int && 0 <= h2 < 360
                        && candidate_safe(w, h, pos, s2, h2, obs)
                        ==> grid_lex_le(pos, tend, c.0 as int, c.1 as int, s2, h2),
                    Option::None => true,
                }
            }
        }
    }
}

impl Ship {
    /// Whether this ship, moving at its scratch velocity, would touch
    /// the obstacle during the turn.
    pub fn will_collide_with_obstacle(&self, obstacle: &Obstacle) -> (r: bool)
        requires
            self.wf(),
            obstacle_ok(*obstacle),
        ensures
            r == moving_circles_hit(
                self.pos().0 as int, self.pos().1 as int, self.velocity_x as int, self.velocity_y as int,
                obstacle.position.0 as int, obstacle.position.1 as int,
                obstacle.velocity_x as int, obstacle.velocity_y as int,
                SHIP_RADIUS as int + obstacle.radius as int + FUDGE as int),
    {
        check_collision(&self.get_obstacle(), obstacle)
    }

    /// Whether this ship would enter the other ship's weapon range
    /// during the turn, on both ships' scratch velocities.
    pub fn will_enter_attack_range(&self, other_ship: &Ship) -> (r: bool)
        requires
            self.wf(),
            other_ship.wf(),
        ensures
            r == moving_circles_hit(
                self.pos().0 as int, self.pos().1 as int, self.velocity_x as int, self.velocity_y as int,
                other_ship.pos().0 as int, other_ship.pos().1 as int,
                other_ship.velocity_x as int, other_ship.velocity_y as int,
                SHIP_RADIUS as int + crate::consts::WEAPON_RADIUS as int + FUDGE as int),
    {
        check_collision(&self.get_obstacle(), &other_ship.get_danger_obstacle())
    }

    /// The command this ship would use to route straight for a target,
    /// deflecting around the nearest blocking stationary obstacle: the
    /// rounded whole-unit speed and the whole-degree heading.
    pub fn route_to(&self, target: &Position, game_map: &GameMap) -> (r: (i32, i32))
        requires
            self.wf(),
            game_map.wf(),
            position_ok(*target),
        ensures
            r.0 == direct_speed(self.pos(), *target),
            0 <= r.0 <= MAX_SPEED,
            0 <= r.1 < 360,
            exists|c: Option<Obstacle>|
                #[trigger] closest_choice_ok(game_map.state, self.pos(), *target, FUDGE as int, c)
                && r.1 == aim_spec(self.pos(), *target, c),
    {
        let pos = self.get_position();
        let closest = game_map.closest_stationary_obstacle(&pos, target, FUDGE);
        let h = aim_heading(pos, *target, &closest);
        let speed = direct_speed_fp(pos, *target);
        (speed as i32, h as i32)
    }

    /// Synthesizes a collision-free command towards `destination`, or
    /// `None` when every candidate, the zero-thrust stay included,
    /// collides.
    ///
    /// The search is staged: the desired trajectory first (the rounded
    /// direct speed at the aim heading), then angular corrections of
    /// growing magnitude on both sides of it, then every (heading,
    /// speed) pair ranked by how near it ends to the desired end
    /// point, ties broken towards lower speed and then lower heading.
    /// The ship itself is never touched: scratch velocities live in
    /// the candidates alone.
    #[verifier::rlimit(100)]
    pub fn smart_navigate(
        &self, destination: &Position, game_map: &GameMap, obstacles: Vec<Obstacle>,
    ) -> (r: Option<(i32, i32)>)
        requires
            self.wf(),
            game_map.wf(),
            position_ok(*destination),
            forall|i: int| 0 <= i < obstacles@.len() ==> obstacle_ok(#[trigger] obstacles@[i]),
        ensures
            r matches Some(c) ==> 0 <= c.0 <= MAX_SPEED && 0 <= c.1 < 360
                && candidate_safe(game_map.width as int, game_map.height as int, self.pos(),
                       c.0 as int, c.1 as int, obstacles@),
            r is None ==> forall|s: int, h: int| 0 <= s <= MAX_SPEED as int && 0 <= h < 360
                ==> !candidate_safe(game_map.width as int, game_map.height as int, self.pos(), s, h, obstacles@),
            (no_stat_hit(game_map.state, self.pos(), *destination, FUDGE as int)
                && candidate_safe(game_map.width as int, game_map.height as int, self.pos(),
                       direct_speed(self.pos(), *destination),
                       best_heading(destination.0 - self.pos().0, destination.1 - self.pos().1),
                       obstacles@))
                ==> r == Some((
                        direct_speed(self.pos(), *destination) as i32,
                        best_heading(destination.0 - self.pos().0, destination.1 - self.pos().1) as i32,
                    )),
            exists|co: Option<Obstacle>|
                #[trigger] closest_choice_ok(game_map.state, self.pos(), *destination, FUDGE as int, co)
                && staged_choice_ok(game_map.width as int, game_map.height as int, self.pos(), *destination,
                       aim_spec(self.pos(), *destination, co), obstacles@, r),
    {
        let pos = self.get_position();
        let w = game_map.width;
        let hgt = game_map.height;
        let closest = game_map.closest_stationary_obstacle(&pos, destination, FUDGE);
        proof {
            if no_stat_hit(game_map.state, self.pos(), *destination, FUDGE as int) {
                assert(closest is None);
            }
        }
        let aim_h = aim_heading(pos, *destination, &closest);
        let speed = direct_speed_fp(pos, *destination);

        if candidate_is_safe(w, hgt, pos, speed, aim_h, &obstacles) {
            return Some((speed as i32, aim_h as i32));
        }

        // bounded neighborhood: growing symmetric angular offsets
        let mut off: u16 = 1;
        while off <= CORRECTION_LIMIT
            invariant
                1 <= off <= CORRECTION_LIMIT + 1,
                forall|o: int| 1 <= o < off as int
                    ==> !candidate_safe(w as int, hgt as int, pos, speed as int,
                            #[trigger] ((aim_h as int + o) % 360), obstacles@)
                        && !candidate_safe(w as int, hgt as int, pos, speed as int,
                            (aim_h as int + 360 - o) % 360, obstacles@),
            decreases CORRECTION_LIMIT + 1 - off,
        {
            let hp: u16 = (aim_h + off) % 360;
            if candidate_is_safe(w, hgt, pos, speed, hp, &obstacles) {
                proof {
                    lemma_offset_scan(w as int, hgt as int, pos, speed as int, aim_h as int,
                        obstacles@, 1, off as int);
                    assert(offset_choice(w as int, hgt as int, pos, speed as int, aim_h as int,
                        obstacles@, off as int) == Some(hp as int));
                }
                return Some((speed as i32, hp as i32));
            }
            let hm: u16 = (aim_h + 360 - off) % 360;
            if candidate_is_safe(w, hgt, pos, speed, hm, &obstacles) {
                proof {
                    lemma_offset_scan(w as int, hgt as int, pos, speed as int, aim_h as int,
                        obstacles@, 1, off as int);
                    assert(offset_choice(w as int, hgt as int, pos, speed as int, aim_h as int,
                        obstacles@, off as int) == Some(hm as int));
                }
                return Some((speed as i32, hm as i32));
            }
            off = off + 1;
        }
        proof {
            lemma_offset_scan(w as int, hgt as int, pos, speed as int, aim_h as int,
                obstacles@, 1, CORRECTION_LIMIT as int + 1);
            assert(offset_choice(w as int, hgt as int, pos, speed as int, aim_h as int,
                obstacles@, 1) is None);
        }

        // exhaustive fallback: the safe grid candidate nearest to the
        // desired trajectory's end point
        match grid_search(w, hgt, pos, speed, aim_h, &obstacles) {
            Some(b) => Some((b.0 as i32, b.1 as i32)),
            None => None,
        }
    }
}

/// `a * num / den`, carried out on magnitudes so that the truncation
/// direction is the same whatever the sign of `a`.
pub open spec fn muldiv(a: int, num: int, den: int) -> int {
    if a >= 0 { a * num / den } else { -((-a) * num / den) }
}

pub fn muldiv_fp(a: i64, num: i64, den: i64) -> (r: i64)
    requires
        -1_000_000_000_000 <= a <= 1_000_000_000_000,
        0 <= num <= 100_000_000,
        0 < den,
        -1_000_000_000_000_000_000 <= a * num <= 1_000_000_000_000_000_000,
    ensures
        r == muldiv(a as int, num as int, den as int),
{
    proof {
        lemma_mul_bound(a as int, num as int, 1_000_000_000_000, 100_000_000);
        lemma_mul_bound(-a as int, num as int, 1_000_000_000_000, 100_000_000);
        assert((-a) as int * num as int == -(a as int * num as int)) by (nonlinear_arith);
    }
    if a >= 0 {
        proof {
            assert(0 <= a as int * num as int / den as int <= a as int * num as int) by (nonlinear_arith)
                requires num >= 0 && den > 0 && a >= 0;
        }
        let p: i128 = a as i128 * num as i128 / den as i128;
        p as i64
    } else {
        proof {
            assert(0 <= (-a) as int * num as int / den as int <= (-a) as int * num as int) by (nonlinear_arith)
                requires num >= 0 && den > 0 && a < 0;
        }
        let p: i128 = (-a) as i128 * num as i128 / den as i128;
        -(p as i64)
    }
}

/// A displacement component over the displacement's whole length stays
/// within the unit, so scaling it by a factor stays within the factor.
pub proof fn lemma_muldiv_unit_bound(a: int, num: int, den: int)
    by (nonlinear_arith)
    requires
        0 <= num,
        0 < den,
        -den <= a <= den,
    ensures
        -num <= muldiv(a, num, den) <= num,
{
}

/// A coordinate clamped into the well-placed range.
pub open spec fn clamp_coord(v: int) -> int {
    if v < -(crate::entities::POS_BOUND as int) { -(crate::entities::POS_BOUND as int) }
    else if v > crate::entities::POS_BOUND as int { crate::entities::POS_BOUND as int }
    else { v }
}

pub fn clamp_coord_fp(v: i64) -> (r: i64)
    ensures
        r == clamp_coord(v as int),
{
    if v < -crate::entities::POS_BOUND { -crate::entities::POS_BOUND }
    else if v > crate::entities::POS_BOUND { crate::entities::POS_BOUND }
    else { v }
}

/// The point just off the target's surface on the side facing `from`:
/// the target's centre pushed its radius plus `min_distance` towards
/// `from`, along the nearest whole-degree heading, clamped into the
/// well-placed range.
pub open spec fn spec_closest_point_to(from: Position, tpos: Position, tradius: int, min_distance: int) -> Position {
    let h = best_heading(from.0 - tpos.0, from.1 - tpos.1);
    let r = tradius + min_distance;
    let x = tpos.0 + muldiv(r * cos_deg(h), 1, FP_ONE as int);
    let y = tpos.1 + muldiv(r * sin_deg(h), 1, FP_ONE as int);
    Position(clamp_coord(x) as i64, clamp_coord(y) as i64)
}

pub fn closest_point_to(from: Position, target_pos: Position, target_radius: i64, min_distance: i64) -> (p: Position)
    requires
        position_ok(from),
        position_ok(target_pos),
        0 <= target_radius <= 20_000_000,
        0 <= min_distance <= 1_000_000,
    ensures
        p == spec_closest_point_to(from, target_pos, target_radius as int, min_distance as int),
        position_ok(p),
{
    let h = heading_towards(target_pos, from);
    let c = cos_deg_fp(h);
    let s = sin_deg_fp(h);
    let r: i64 = target_radius + min_distance;
    proof {
        lemma_mul_bound(r as int, c as int, 21_000_000, 10_000);
        lemma_mul_bound(r as int, s as int, 21_000_000, 10_000);
    }
    let dx = muldiv_fp(r * c, 1, FP_ONE);
    let dy = muldiv_fp(r * s, 1, FP_ONE);
    proof {
        assert(-(21_000_000_0000int) <= r as int * c as int <= 21_000_000_0000int);
        assert(muldiv(r as int * c as int, 1, FP_ONE as int) <= 21_000_000) by (nonlinear_arith)
            requires -(21_000_000_0000int) <= r as int * c as int <= 21_000_000_0000int;
        assert(muldiv(r as int * c as int, 1, FP_ONE as int) >= -21_000_000) by (nonlinear_arith)
            requires -(21_000_000_0000int) <= r as int * c as int <= 21_000_000_0000int;
        assert(muldiv(r as int * s as int, 1, FP_ONE as int) <= 21_000_000) by (nonlinear_arith)
            requires -(21_000_000_0000int) <= r as int * s as int <= 21_000_000_0000int;
        assert(muldiv(r as int * s as int, 1, FP_ONE as int) >= -21_000_000) by (nonlinear_arith)
            requires -(21_000_000_0000int) <= r as int * s as int <= 21_000_000_0000int;
    }
    let x = clamp_coord_fp(target_pos.0 + dx);
    let y = clamp_coord_fp(target_pos.1 + dy);
    Position(x, y)
}

/// The exhaustive fallback of the navigator: every (speed, heading)
/// candidate, the zero-thrust stay included, ranked by the squared
/// distance of its end point from the desired trajectory's end point,
/// ties towards lower speed and then lower heading; the first safe
/// candidate of that order comes back, or nothing when none is safe.
#[verifier::rlimit(100)]
fn grid_search(
    w: i64, hgt: i64, pos: Position, speed: i64, aim_h: u16, obstacles: &Vec<Obstacle>,
) -> (r: Option<(i64, u16)>)
    requires
        position_ok(pos),
        0 <= speed <= MAX_SPEED,
        aim_h < 360,
        0 < w <= 10_000_000,
        0 < hgt <= 10_000_000,
        forall|i: int| 0 <= i < obstacles@.len() ==> obstacle_ok(#[trigger] obstacles@[i]),
    ensures
        match r {
            Some(b) => 0 <= b.0 <= MAX_SPEED && b.1 < 360
                && candidate_safe(w as int, hgt as int, pos, b.0 as int, b.1 as int, obstacles@)
                && (forall|s2: int, h2: int| 0 <= s2 <= MAX_SPEED as int && 0 <= h2 < 360
                    && candidate_safe(w as int, hgt as int, pos, s2, h2, obstacles@)
                    ==> grid_lex_le(pos, grid_target(pos, speed as int, aim_h as int),
                            b.0 as int, b.1 as int, s2, h2)),
            None => forall|s: int, h: int| 0 <= s <= MAX_SPEED as int && 0 <= h < 360
                ==> !candidate_safe(w as int, hgt as int, pos, s, h, obstacles@),
        },
{
    let (pvx, pvy) = candidate_velocity(speed, aim_h);
    let target_end = Position(pos.0 + pvx, pos.1 + pvy);
    proof {
        assert(target_end == grid_target(pos, speed as int, aim_h as int));
    }
    let ghost tendg = target_end;

    let mut best: Option<(i64, u16)> = None;
    let mut best_key: i64 = 0;
    if candidate_is_safe(w, hgt, pos, 0, 0, &obstacles) {
        best = Some((0, 0));
        best_key = distance_sq(pos, target_end);
        proof {
            lemma_zero_speed(0);
        }
    }
    let mut hh: u16 = 0;
    while hh < 360
        invariant
            hh <= 360,
            match best {
                None => (forall|s: int, h: int| 1 <= s <= MAX_SPEED as int && 0 <= h < hh as int
                        ==> !candidate_safe(w as int, hgt as int, pos, s, h, obstacles@))
                    && !candidate_safe(w as int, hgt as int, pos, 0, 0, obstacles@),
                Some(b) => 0 <= b.0 <= MAX_SPEED && b.1 < 360
                    && candidate_safe(w as int, hgt as int, pos, b.0 as int, b.1 as int, obstacles@)
                    && best_key == grid_key(pos, tendg, b.0 as int, b.1 as int)
                    && (candidate_safe(w as int, hgt as int, pos, 0, 0, obstacles@)
                        ==> grid_lex_le(pos, tendg, b.0 as int, b.1 as int, 0, 0))
                    && (forall|s2: int, h2: int| 1 <= s2 <= MAX_SPEED as int && 0 <= h2 < hh as int
                        && candidate_safe(w as int, hgt as int, pos, s2, h2, obstacles@)
                        ==> grid_lex_le(pos, tendg, b.0 as int, b.1 as int, s2, h2)),
            },
        decreases 360 - hh,
    {
        let mut ss: i64 = 1;
        while ss <= MAX_SPEED
            invariant
                1 <= ss <= MAX_SPEED + 1,
                hh < 360,
                match best {
                    None => (forall|s: int, h: int| 1 <= s <= MAX_SPEED as int && 0 <= h < hh as int
                            ==> !candidate_safe(w as int, hgt as int, pos, s, h, obstacles@))
                        && (forall|s: int| 1 <= s < ss as int
                            ==> !candidate_safe(w as int, hgt as int, pos, s, hh as int, obstacles@))
                        && !candidate_safe(w as int, hgt as int, pos, 0, 0, obstacles@),
                    Some(b) => 0 <= b.0 <= MAX_SPEED && b.1 < 360
                        && candidate_safe(w as int, hgt as int, pos, b.0 as int, b.1 as int, obstacles@)
                        && best_key == grid_key(pos, tendg, b.0 as int, b.1 as int)
                        && (candidate_safe(w as int, hgt as int, pos, 0, 0, obstacles@)
                            ==> grid_lex_le(pos, tendg, b.0 as int, b.1 as int, 0, 0))
                        && (forall|s2: int, h2: int| 1 <= s2 <= MAX_SPEED as int && 0 <= h2 < hh as int
                            && candidate_safe(w as int, hgt as int, pos, s2, h2, obstacles@)
                            ==> grid_lex_le(pos, tendg, b.0 as int, b.1 as int, s2, h2))
                        && (forall|s2: int| 1 <= s2 < ss as int
                            && candidate_safe(w as int, hgt as int, pos, s2, hh as int, obstacles@)
                            ==> grid_lex_le(pos, tendg, b.0 as int, b.1 as int, s2, hh as int)),
                },
            decreases MAX_SPEED + 1 - ss,
        {
            let (vx, vy) = candidate_velocity(ss, hh);
            let end = Position(pos.0 + vx, pos.1 + vy);
            let key = distance_sq(end, target_end);
            proof {
                assert(key == grid_key(pos, tendg, ss as int, hh as int));
            }
            let better: bool = match best {
                None => true,
                Some(b) => key < best_key
                    || (key == best_key && (ss < b.0 || (ss == b.0 && hh < b.1))),
            };
            if better {
                if candidate_is_safe(w, hgt, pos, ss, hh, &obstacles) {
                    best = Some((ss, hh));
                    best_key = key;
                }
            }
            ss = ss + 1;
        }
        hh = hh + 1;
    }
    match best {
        Some(b) => {
            proof {
                assert forall|s2: int, h2: int| 0 <= s2 <= MAX_SPEED as int && 0 <= h2 < 360
                    && candidate_safe(w as int, hgt as int, pos, s2, h2, obstacles@)
                    implies grid_lex_le(pos, tendg, b.0 as int, b.1 as int, s2, h2) by {
                    if s2 == 0 {
                        // a stay at any heading is the stay at heading zero
                        lemma_zero_speed(h2);
                        lemma_zero_speed(0);
                        assert(candidate_safe(w as int, hgt as int, pos, 0, 0, obstacles@));
                        assert(grid_key(pos, tendg, 0, h2) == grid_key(pos, tendg, 0, 0));
                        assert(grid_lex_le(pos, tendg, b.0 as int, b.1 as int, 0, 0));
                    }
                }
            }
            Some(b)
        }
        None => {
            proof {
                assert forall|s: int, h: int| 0 <= s <= MAX_SPEED as int && 0 <= h < 360
                    implies !candidate_safe(w as int, hgt as int, pos, s, h, obstacles@) by {
                    if s == 0 {
                        lemma_zero_speed(h);
                        lemma_zero_speed(0);
                    }
                }
            }
            None
        }
    }
}

/// Whether two moving circular obstacles touch during the turn, with
/// the safety margin added to their combined radius.
pub fn check_collision(obstacle_1: &Obstacle, obstacle_2: &Obstacle) -> (r: bool)
    requires
        obstacle_ok(*obstacle_1),
        obstacle_ok(*obstacle_2),
    ensures
        r == moving_circles_hit(
            obstacle_1.position.0 as int, obstacle_1.position.1 as int,
            obstacle_1.velocity_x as int, obstacle_1.velocity_y as int,
            obstacle_2.position.0 as int, obstacle_2.position.1 as int,
            obstacle_2.velocity_x as int, obstacle_2.velocity_y as int,
            obstacle_1.radius as int + obstacle_2.radius as int + FUDGE as int),
{
    check_moving_collision(
        obstacle_1.position.0, obstacle_1.position.1,
        obstacle_1.velocity_x, obstacle_1.velocity_y,
        obstacle_2.position.0, obstacle_2.position.1,
        obstacle_2.velocity_x, obstacle_2.velocity_y,
        obstacle_1.radius + obstacle_2.radius + FUDGE,
    )
}

} // verus!
