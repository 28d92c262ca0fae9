//! Agent state: a stable identity, a position and a velocity.

use vstd::prelude::*;

verus! {

use crate::config::MAX_COORD;
use crate::vec2::Vec2;

/// One simulated agent. Agents are created once at simulation start and are
/// never added or destroyed during a run.
#[derive(Clone, Copy, PartialEq, Eq, Structural, Debug)]
pub struct Agent {
    /// Stable unique identity; neighbor scans exclude the agent itself by
    /// comparing identities, never positions.
    pub id: u64,
    /// World position, fixed-point sub-units.
    pub position: Vec2,
    /// Velocity in sub-units per second.
    pub velocity: Vec2,
}

impl Agent {
    /// Position and velocity components lie within the fixed-point working
    /// range of the steering arithmetic.
    pub open spec fn bounded(self) -> bool {
        self.position.within(MAX_COORD as int) && self.velocity.within(MAX_COORD as int)
    }
}

/// Every agent of the snapshot is within the fixed-point working range.
pub open spec fn all_bounded(s: Seq<Agent>) -> bool {
    forall|i: int| 0 <= i < s.len() ==> #[trigger] s[i].bounded()
}

} // verus!
