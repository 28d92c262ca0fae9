//! The integrator and the boundary wrap.

use vstd::prelude::*;

verus! {

use vstd::pervasive::VecAdditionalExecFns;

use crate::agent::Agent;
use crate::config::MAX_COORD;
use crate::fixed::div_trunc;
use crate::fixed::div_trunc_i64;
use crate::fixed::lemma_div_trunc_bound;
use crate::vec2::Vec2;

/// Fixed physics rate: sixty ticks per second, decoupled from any
/// presentation refresh rate.
pub const TICKS_PER_SECOND: i64 = 60;

/// Largest velocity component the integrator accepts: what one steering pass
/// can produce from a store within the fixed-point working range.
pub const MAX_STEP_VEL: i64 = 4_000_000_000_000;

/// One coordinate after an integration step: the position advances by one
/// tick's worth of velocity.
pub open spec fn integrate_coord(x: int, v: int) -> int {
    x + div_trunc(v, TICKS_PER_SECOND as int)
}

/// One coordinate after the boundary wrap against half-extent `half` with
/// margin `radius`: an agent fully past one edge is teleported just past the
/// opposite edge; anything else is untouched.
pub open spec fn wrap_coord(x: int, half: int, radius: int) -> int {
    if x - radius > half {
        -half - radius
    } else if x + radius < -half {
        half + radius
    } else {
        x
    }
}

/// Advances every agent's position by one tick of its velocity. Pure per
/// agent: identities and velocities are untouched.
pub fn integrate(agents: &mut Vec<Agent>)
    requires
        forall|k: int|
            0 <= k < old(agents)@.len() ==> (#[trigger] old(agents)@[k]).position.within(
                MAX_COORD as int,
            ) && old(agents)@[k].velocity.within(MAX_STEP_VEL as int),
    ensures
        final(agents)@.len() == old(agents)@.len(),
        forall|k: int|
            0 <= k < old(agents)@.len() ==> {
                &&& (#[trigger] final(agents)@[k]).id == old(agents)@[k].id
                &&& final(agents)@[k].velocity == old(agents)@[k].velocity
                &&& final(agents)@[k].position.x as int == integrate_coord(
                    old(agents)@[k].position.x as int,
                    old(agents)@[k].velocity.x as int,
                )
                &&& final(agents)@[k].position.y as int == integrate_coord(
                    old(agents)@[k].position.y as int,
                    old(agents)@[k].velocity.y as int,
                )
            },
{
    let n: usize = agents.len();
    let mut k: usize = 0;
    while k < n
        invariant
            n == agents@.len(),
            0 <= k <= n,
            forall|m: int|
                0 <= m < n ==> (#[trigger] old(agents)@[m]).position.within(MAX_COORD as int)
                    && old(agents)@[m].velocity.within(MAX_STEP_VEL as int),
            forall|m: int| k <= m < n ==> agents@[m] == old(agents)@[m],
            forall|m: int|
                0 <= m < k ==> {
                    &&& (#[trigger] agents@[m]).id == old(agents)@[m].id
                    &&& agents@[m].velocity == old(agents)@[m].velocity
                    &&& agents@[m].position.x as int == integrate_coord(
                        old(agents)@[m].position.x as int,
                        old(agents)@[m].velocity.x as int,
                    )
                    &&& agents@[m].position.y as int == integrate_coord(
                        old(agents)@[m].position.y as int,
                        old(agents)@[m].velocity.y as int,
                    )
                },
        decreases n - k,
    {
        let a: Agent = agents[k];
        proof {
            lemma_div_trunc_bound(a.velocity.x as int, TICKS_PER_SECOND as int, MAX_STEP_VEL as int);
            lemma_div_trunc_bound(a.velocity.y as int, TICKS_PER_SECOND as int, MAX_STEP_VEL as int);
        }
        let step_x: i64 = div_trunc_i64(a.velocity.x, TICKS_PER_SECOND);
        let step_y: i64 = div_trunc_i64(a.velocity.y, TICKS_PER_SECOND);
        let moved: Agent = Agent {
            id: a.id,
            position: Vec2 { x: a.position.x + step_x, y: a.position.y + step_y },
            velocity: a.velocity,
        };
        agents.set(k, moved);
        k = k + 1;
    }
}

/// Teleports every agent that fully left the world rectangle to the opposite
/// edge, independently per axis; velocities and identities are untouched.
/// Afterwards every position component lies within `half + radius`.
pub fn wrap(agents: &mut Vec<Agent>, half_width: i64, half_height: i64, radius: i64)
    requires
        0 <= radius,
        0 <= half_width,
        0 <= half_height,
        half_width + radius <= MAX_COORD,
        half_height + radius <= MAX_COORD,
    ensures
        final(agents)@.len() == old(agents)@.len(),
        forall|k: int|
            0 <= k < old(agents)@.len() ==> {
                &&& (#[trigger] final(agents)@[k]).id == old(agents)@[k].id
                &&& final(agents)@[k].velocity == old(agents)@[k].velocity
                &&& final(agents)@[k].position.x as int == wrap_coord(
                    old(agents)@[k].position.x as int,
                    half_width as int,
                    radius as int,
                )
                &&& final(agents)@[k].position.y as int == wrap_coord(
                    old(agents)@[k].position.y as int,
                    half_height as int,
                    radius as int,
                )
                &&& final(agents)@[k].position.within(MAX_COORD as int)
            },
{
    let n: usize = agents.len();
    let east: i64 = half_width + radius;
    let north: i64 = half_height + radius;
    let mut k: usize = 0;
    while k < n
        invariant
            n == agents@.len(),
            0 <= k <= n,
            east == half_width + radius,
            north == half_height + radius,
            0 <= radius,
            0 <= half_width,
            0 <= half_height,
            half_width + radius <= MAX_COORD,
            half_height + radius <= MAX_COORD,
            forall|m: int| k <= m < n ==> agents@[m] == old(agents)@[m],
            forall|m: int|
                0 <= m < k ==> {
                    &&& (#[trigger] agents@[m]).id == old(agents)@[m].id
                    &&& agents@[m].velocity == old(agents)@[m].velocity
                    &&& agents@[m].position.x as int == wrap_coord(
                        old(agents)@[m].position.x as int,
                        half_width as int,
                        radius as int,
                    )
                    &&& agents@[m].position.y as int == wrap_coord(
                        old(agents)@[m].position.y as int,
                        half_height as int,
                        radius as int,
                    )
                    &&& agents@[m].position.within(MAX_COORD as int)
                },
        decreases n - k,
    {
        let a: Agent = agents[k];
        let mut x: i64 = a.position.x;
        let mut y: i64 = a.position.y;
        if x > east {
            x = -east;
        } else if x < -east {
            x = east;
        }
        if y > north {
            y = -north;
        } else if y < -north {
            y = north;
        }
        let wrapped: Agent = Agent {
            id: a.id,
            position: Vec2 { x, y },
            velocity: a.velocity,
        };
        agents.set(k, wrapped);
        k = k + 1;
    }
}

} // verus!
