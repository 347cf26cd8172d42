//! A bounded 2-D arena of growing, bouncing and exploding balls, indexed by a
//! quadtree for collision queries.
//!
//! Coordinates, sizes and velocities are whole pixels held in `i64`.
use vstd::prelude::*;

pub mod constants;
pub mod ball;
pub mod geometry;
pub mod logic;
pub mod quadtree;
