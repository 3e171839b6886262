//! A minesweeper board: where the mines lie, which cells were opened, what
//! opening a cell reports, and the board as text.
//!
//! [`board::Board`] says what a board is; [`Minesweeper`] stores one, and
//! each of its methods is proved to do to the board what its contract says.
//! What holds of every board is proved in [`laws`].

pub mod board;
pub mod laws;
pub mod minesweeper;
pub mod position;
pub mod random;

pub use crate::minesweeper::{Minesweeper, OpenResult};
pub use crate::position::{Position, PositionSet};
pub use crate::random::random_range;
