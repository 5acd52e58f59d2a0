//! A plain two-component integer vector.
//!
//! Used both for world positions (sub-unit coordinates) and for direction
//! vectors (Q16 components produced by the trigonometric tables).

use vstd::prelude::*;

verus! {

/// A 2D vector of fixed-point integers.
#[derive(Clone, Copy, PartialEq, Eq, Structural, Debug)]
pub struct Vec2 {
    pub x: i64,
    pub y: i64,
}

impl Vec2 {
    /// Builds the vector (x, y).
    pub fn new(x: i64, y: i64) -> (r: Vec2)
        ensures
            r.x == x,
            r.y == y,
    {
        Vec2 { x, y }
    }
}

} // verus!
