//! Plain-value geometry carried by the data model.
//!
//! World coordinates are held in fixed point, as thousandths of a world
//! unit, so that positions are exact values the verifier can reason about.
//! The shell converts them to its own floating-point vectors at the boundary.

use vstd::prelude::*;

verus! {

/// Number of fixed-point steps per world unit.
pub const POSITION_SCALE: i64 = 1000;

/// A point in world space, each coordinate in thousandths of a world unit.
#[derive(Clone, Copy, PartialEq, Eq, Structural, Debug)]
pub struct Position {
    pub x: i64,
    pub y: i64,
    pub z: i64,
}

impl Position {
    /// The world origin.
    pub fn zero() -> (p: Position)
        ensures
            p == (Position { x: 0, y: 0, z: 0 }),
    {
        Position { x: 0, y: 0, z: 0 }
    }

    /// A position from whole world units.
    pub fn from_units(x: i64, y: i64, z: i64) -> (p: Position)
        requires
            i64::MIN <= x * POSITION_SCALE <= i64::MAX,
            i64::MIN <= y * POSITION_SCALE <= i64::MAX,
            i64::MIN <= z * POSITION_SCALE <= i64::MAX,
        ensures
            p.x == x * POSITION_SCALE,
            p.y == y * POSITION_SCALE,
            p.z == z * POSITION_SCALE,
    {
        Position { x: x * POSITION_SCALE, y: y * POSITION_SCALE, z: z * POSITION_SCALE }
    }
}

} // verus!
