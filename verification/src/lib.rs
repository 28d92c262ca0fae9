//! A verified flocking ("boids") simulation core.
//!
//! Each agent steers from the relative positions and velocities of nearby
//! agents (cohesion, alignment, separation), advances its position at a fixed
//! tick rate, and wraps at the world boundary. All coordinates, velocities and
//! tunable parameters are fixed-point integers with a scale of 1000 sub-units
//! per world unit, so every step of the per-tick pipeline has an exact
//! mathematical specification.

pub mod agent;
pub mod config;
pub mod fixed;
pub mod motion;
mod rng;
pub mod sim;
pub mod steer;
pub mod vec2;
