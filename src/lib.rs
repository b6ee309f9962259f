//! Simulation core of a snake game on a wrap-around (toroidal) grid.
//!
//! The board, the snake, the food cell, the heading, the status and the score
//! are held by [`world::World`]. Food placement is split in two: the library
//! decides whether a drawn cell is acceptable, while drawing random cells is
//! left to the caller. The module `laws` states and proves properties that
//! hold of every board and every state.

pub mod geometry;
pub mod laws;
pub mod world;

pub use geometry::Direction;
pub use world::{GameStatus, World, WorldError};
