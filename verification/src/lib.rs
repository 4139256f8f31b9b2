//! A particle fluid solver core in the Position-Based Fluids style.
//!
//! The crate models every stage of a simulation step over plain integer
//! values: particles are hashed into grid cells by Morton code, sorted by a
//! four-round radix sort, indexed per cell, scanned for neighbors, given a
//! kernel-weighted density, relaxed by an iterative position-correction
//! solver, and finally integrated. Scalar quantities are fixed-point
//! numbers: an `i64` (or `i128` for solver scratch) counting millionths
//! of a unit.

pub mod cells;
pub mod config;
pub mod density;
pub mod error;
pub mod fixed;
pub mod integrate;
pub mod kernel;
pub mod morton;
pub mod neighbors;
pub mod pipeline;
pub mod solver;
pub mod sort;
pub mod step;
pub mod store;
