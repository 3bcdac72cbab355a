//! Verified discrete core of a two-dimensional flocking simulation.
//!
//! Every agent has a stable index. Each tick the agents are bucketed by the
//! grid cell that holds them, steering is computed per bucket, positions are
//! advanced and the world boundary is applied. This crate holds the parts of
//! that pipeline that are decided on integers: configuration, cell hashing,
//! the bucket grid, nearest-neighbour selection, the boundary rule, the split
//! of the agent range into parallel chunks and the order of the tick's phases.

pub mod boundary;
pub mod config;
pub mod grid;
pub mod hashing;
pub mod neighbors;
pub mod partition;
pub mod phase;
