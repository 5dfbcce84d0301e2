//! Conway's Game of Life on a square grid with hard edges.
//!
//! The grid is a row-major sequence of cells. [`Mapper`] converts between
//! linear indices and (row, column) positions, and [`Game`] owns the cells,
//! answers queries and advances generations.

pub mod cell;
pub mod game;
pub mod mapper;

pub use cell::{Cell, GameError};
pub use game::Game;
pub use mapper::Mapper;
