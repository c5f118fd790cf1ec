//! Conway's Game of Life on a bounded rectangular grid with a closed boundary.
//!
//! The mathematical model of a generation is [`board::Board`]; the executable
//! grid is [`Grid`], whose view is a `Board`.

pub mod board;
pub mod cell;
mod chance;
pub mod game;
pub mod grid;
pub mod laws;
pub mod terminal;

pub use cell::Cell;
pub use game::{Frame, Game};
pub use grid::{Grid, GridError};
