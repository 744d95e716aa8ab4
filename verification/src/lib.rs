//! A terminal puzzle game: crab-like entities fall, bounce and climb across a
//! toroidal tile grid until each one reaches a safety tile. This crate holds
//! the verified core: the tile kinds and their glyphs, the wrap-around grid,
//! the per-tick entity movement simulation, and the level data.

use vstd::prelude::*;

pub mod crab;
pub mod entities;
pub mod grid;
pub mod input;
pub mod levels;
pub mod loading;
pub mod scenery;

verus! {

/// Terminal velocity: the largest magnitude either velocity component may reach.
pub const VMAX: isize = 10;

} // verus!
