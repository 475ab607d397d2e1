//! Game constants and tuning parameters.
//!
//! Lengths are fixed-point: `FP_ONE` scaled units equal one world unit.
//! Dimensionless factors (preferences, multipliers) use the same scale.

use vstd::prelude::*;

verus! {

/// One world unit in fixed-point scale.
pub const FP_ONE: i64 = 10_000;

/// Max number of units of distance a ship can travel in a turn (whole units).
pub const MAX_SPEED: i64 = 7;

/// Radius of a ship.
pub const SHIP_RADIUS: i64 = 5_000;

/// Starting health of a ship, also its max.
pub const MAX_SHIP_HEALTH: i64 = 255;

/// Weapon damage radius.
pub const WEAPON_RADIUS: i64 = 50_000;

/// Weapon damage per turn.
pub const WEAPON_DAMAGE: i64 = 64;

/// Distance from the edge of a planet at which ships can try to dock.
pub const DOCK_RADIUS: i64 = 40_000;

/// The most damage a planet's explosion deals, at its centre.
pub const MAX_EXPLOSION_DAMAGE: i64 = 1_275;

/// The least damage a planet's explosion deals, at its edge.
pub const MIN_EXPLOSION_DAMAGE: i64 = 127;

/// Number of turns it takes to dock a ship.
pub const DOCK_TURNS: i64 = 5;

/// Total production required to spawn a ship.
pub const SHIP_COST: i64 = 72;

/// Safety margin added to every clearance test.
pub const FUDGE: i64 = 5;

/// Magnitude bound under which all geometric tests are overflow-free.
pub const GEOM_BOUND: i64 = 100_000_000;

/// Preference multipliers per action kind, for the two-relevant-opponent regime.
pub const DOCK_PREFERENCE_2P: i64 = 5_000;
pub const RAID_PREFERENCE_2P: i64 = 7_500;
pub const DEFEND_PREFERENCE_2P: i64 = 9_000;
pub const INTERCEPT_PREFERENCE_2P: i64 = 28_000;

/// Preference multipliers per action kind, for the many-opponent regime.
pub const DOCK_PREFERENCE_4P: i64 = 3_500;
pub const RAID_PREFERENCE_4P: i64 = 8_500;
pub const DEFEND_PREFERENCE_4P: i64 = 8_000;
pub const INTERCEPT_PREFERENCE_4P: i64 = 98_000;

} // verus!
