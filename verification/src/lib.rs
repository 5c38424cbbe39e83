//! Conway's Game of Life on a fixed-size rectangular grid with clipped
//! (non-wrapping) boundaries.
//!
//! The grid is a dense, row-major board of two-valued cells. One generation
//! is computed by reading a `current` board and writing every cell of a
//! separately owned `next` board of the same dimensions, so a caller can
//! alternate two boards (double-buffering) across generations.

pub mod board;
pub mod laws;
pub mod step;

pub use board::Board;
pub use board::Cell;
pub use board::Coord;
pub use step::game_of_life_step;
pub use step::set_many;
