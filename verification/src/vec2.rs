//! Two-dimensional fixed-point vectors.

use vstd::prelude::*;

verus! {

/// A two-dimensional vector in fixed-point world coordinates
/// ([`crate::fixed::SCALE`] sub-units per world unit).
#[derive(Clone, Copy, PartialEq, Eq, Structural, Debug)]
pub struct Vec2 {
    pub x: i64,
    pub y: i64,
}

impl Vec2 {
    /// Both components lie within `[-m, m]`.
    pub open spec fn within(self, m: int) -> bool {
        -m <= self.x <= m && -m <= self.y <= m
    }
}

} // verus!
