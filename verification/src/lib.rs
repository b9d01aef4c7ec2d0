//! Seeded simplex noise: the integer core.
//!
//! Everything a noise evaluation decides on integers lives here: the seeded
//! permutation table, the single-slot cache that holds it, the layered
//! gradient hash, and the choice of simplex corners in one, two and three
//! dimensions.

pub mod constants;
pub mod ptable;
pub mod simplex;
