//! A colored variant of Conway's Game of Life.
//!
//! Live cells carry a hue; newborn cells receive a hue mixed from the
//! neighbors that caused their birth; the grid evolves on fixed tick
//! intervals and periodically injects glider patterns into empty regions.

pub mod automata;
pub mod cell;
pub mod hue;
mod rng;
pub mod text;
