//! Conway's Game of Life on a fixed-size toroidal grid.
//!
//! [`universe`] holds the executable grid and its cells, [`model`] the
//! mathematical board that the contracts are stated over, and [`laws`] the
//! properties that relate several operations.

pub mod laws;
pub mod model;
pub mod universe;
