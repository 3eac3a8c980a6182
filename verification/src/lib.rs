//! Conway's Game of Life on a bounded rectangular grid.
//!
//! [`board::Board`] is the mathematical model of one generation and of the
//! transition between generations. [`grid::GameOfLife`] is the executable,
//! double-buffered grid; every method of it is specified against the model.
//! [`random`] holds what is assumed of the random source that seeds a grid,
//! and [`session`] the policy by which a display session advances and ends.

pub mod board;
pub mod grid;
pub mod random;
pub mod session;
