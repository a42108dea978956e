//! A verified 2D flocking ("boids") simulation.
//!
//! Agents steer by three local rules — separation, cohesion and alignment —
//! over the neighbours within a given radius, with speed clamping and
//! toroidal position wrapping, and a flock advances them all against a
//! frozen snapshot of the previous frame, throttled to a fixed simulation
//! rate. All state is fixed-point: one spatial unit is `SCALE` integer
//! steps, so every epsilon, speed and damping constant of the motion rules
//! is an exact integer quantity and each update is proved overflow-free and
//! faithful to its specification. Rendering is emitted as a sequence of
//! drawing commands in a fixed layering order; the host issues them to its
//! surface.
use vstd::prelude::*;

pub mod num;
pub mod vec2;
pub mod rng;
pub mod render;
pub mod boid;
pub mod flock;

verus! {

/// Fixed-point scale: the number of integer steps in one simulation unit.
pub const SCALE: i64 = 1000;

/// Largest area dimension, in steps (10000 units): keeps every product in
/// the motion update inside 64 bits.
pub const AREA_MAX: i64 = 10_000_000;

/// Largest flock population the update arithmetic accepts.
pub const MAX_POPULATION: usize = 100_000;

/// Largest time step, in milliseconds, the update arithmetic accepts.
pub const DT_CAP: i64 = 10_000_000_000;

} // verus!
