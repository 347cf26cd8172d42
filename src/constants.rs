//! Arena dimensions and the size, speed and rate tables of the simulation.
use vstd::prelude::*;

verus! {

pub const WIDTH: usize = 640;

pub const HEIGHT: usize = 480;

pub const TINY: i64 = 6;

pub const SMALL: i64 = 10;

pub const BIG: i64 = 17;

pub const LARGE: i64 = 28;

pub const FULL: i64 = 52;

pub const COLOSSAL: i64 = 88;

pub const SLOW: i64 = 1;

pub const FAST: i64 = 3;

/// How much a growing ball gains each tick.
pub const GROWS: i64 = 1;

/// How fast a ball explodes once it was activated.
pub const EXPLODES: i64 = 9;

/// How fast an exploded ball shrinks after reaching its largest size.
pub const SHRINK: i64 = -10;

/// Bound on arena dimensions, positions and velocities, so that every sum and
/// every squared distance of the simulation fits in an `i64`.
pub const COORD_LIMIT: i64 = 1000000;

} // verus!
