//! Drawing commands.
//!
//! The simulation never touches a drawing surface itself: each frame it
//! emits a sequence of primitive commands, in the layering order the
//! renderer must follow, and the host issues them to its canvas.
use vstd::prelude::*;

verus! {

/// Radius of an agent's body circle, in fixed-point steps (2.0 units).
pub const BODY_RADIUS: i64 = 2_000;

/// Length of the velocity indicator line, in fixed-point steps (10.0
/// units).
pub const VELOCITY_SCALE: i64 = 10_000;

/// The palette the flock is drawn with.
#[derive(Clone, Copy, PartialEq, Eq, Structural, Debug)]
pub enum Color {
    /// Agent bodies.
    Red,
    /// Velocity indicator lines.
    Black,
    /// Neighbourhood circles.
    Grey,
}

/// One primitive drawing call, in fixed-point coordinates.
#[derive(Clone, Copy, PartialEq, Eq, Structural, Debug)]
pub enum DrawCmd {
    /// Clear the surface rectangle from the origin to (width, height).
    Clear { width: i64, height: i64 },
    /// A circle at (x, y); filled for bodies, an outline otherwise.
    Circle { x: i64, y: i64, radius: i64, color: Color, filled: bool },
    /// A line segment from (x1, y1) to (x2, y2).
    Line { x1: i64, y1: i64, x2: i64, y2: i64, color: Color },
}

} // verus!
