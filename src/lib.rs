//! Conway's Game of Life on a fixed-size grid with clamped (non-wrapping) edges.
pub mod cell;
pub mod universe;
pub mod patterns;
