//! The simulation core of a falling-block puzzle game: a walled grid, one
//! falling tetromino, collision, locking and line clearing.

pub mod color;
mod random;
pub mod tetromino;
pub mod grid;
pub mod game;
