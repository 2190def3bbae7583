//! A two-dimensional lattice Boltzmann fluid simulation, and the
//! bookkeeping of an interactive viewer for it.
//!
//! The library owns the grid: which populations of which cells meet in a
//! collision, where each population goes when it streams, what an obstacle
//! does to it. The values of the cells are of a type of the caller's
//! choice, and the arithmetic on them is the caller's too: it comes in as
//! formulas on single values, and every contract says what the result is
//! in terms of what those formulas return.

pub mod collision;
pub mod display;
pub mod equilibrium;
pub mod fields;
pub mod geometry;
pub mod lattice;
pub mod matrix;
pub mod sim;
pub mod state;
pub mod streaming;
