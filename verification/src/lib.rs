//! Conway's Game of Life on a fixed square board without wraparound.
//!
//! The board is a row-major sequence of cells; every generation is computed
//! from the current cells alone and becomes visible in one piece.

pub mod display;
pub mod error;
pub mod game;
pub mod geometry;
pub mod neighbors;
pub mod patterns;
pub mod random;
pub mod rules;

pub use error::GridError;
pub use game::{Board, GameOfLife};
