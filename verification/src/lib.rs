//! Simulation core of a side-scrolling skiing game: a friction-based physics
//! integrator over a tile-indexed terrain, a neighborhood-biased procedural
//! generator for tiles and obstacles, and the scroll/collision bookkeeping
//! that keeps an endless course while discarding history.
//!
//! All continuous quantities (positions, velocities, rotations, friction
//! coefficients, time steps) are fixed-point values: an `i64` counts
//! thousandths of a world unit (or of a second, or of a radian).

pub mod fixed;
pub mod rng;
pub mod game;
pub mod generation;
pub mod trig;
pub mod world;
