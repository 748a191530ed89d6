//! Conway's Game of Life on a fixed-size rectangular grid with clipped
//! (non-wrapping) edges.
//!
//! The mathematical model of a grid lives in [`grid`], and [`lemmas`] holds
//! the facts about its counting functions that the proofs use. [`board`]
//! holds the executable board and its operations, each specified over that
//! model. [`random`] is the random source that seeds a board, the only part
//! that is believed and not proved. [`render`] produces the text picture of
//! a board. [`laws`] states properties of the game that hold for every grid.

pub mod grid;
pub mod lemmas;
pub mod random;
pub mod board;
pub mod render;
pub mod laws;
