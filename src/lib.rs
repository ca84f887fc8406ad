//! Tile-grid navigation core: pointer mapping, click intents, map bounds and
//! adjacency checks, and the per-entity movement state machine.
//!
//! All world-space quantities are fixed-point integers counted in
//! thousandths of a world unit, so that the arithmetic is exact.
use vstd::prelude::*;

pub mod geometry;
pub mod map;
pub mod player;
pub mod camera;
pub mod mouse_actions;
pub mod systems;

verus! {

/// Number of fixed-point steps in one world unit.
pub const SUBUNITS_PER_UNIT: i64 = 1000;

} // verus!
