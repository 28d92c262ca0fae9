//! The neighbor scan and the steering calculator.
//!
//! For each agent the scan walks a frozen snapshot of the whole population,
//! classifies every other agent against the two sensing radii, and accumulates
//! the totals the three steering rules need. The rules then share one tail:
//! normalize the accumulated vector, rescale it to cruising speed, subtract
//! the agent's current velocity, cap the result at `max_steer`, and weight it.

use vstd::prelude::*;

verus! {

use vstd::pervasive::VecAdditionalExecFns;

use crate::agent::all_bounded;
use crate::agent::Agent;
use crate::config::Config;
use crate::config::MAX_CONTRIB;
use crate::config::MAX_COORD;
use crate::config::MAX_PARAM;
use crate::config::MAX_POPULATION;
use crate::config::MAX_WEIGHT;
use crate::fixed::div_trunc;
use crate::fixed::div_trunc_i64;
use crate::fixed::isqrt;
use crate::fixed::isqrt_spec;
use crate::fixed::lemma_comp_le_len;
use crate::fixed::lemma_div_trunc_mul_bound;
use crate::fixed::lemma_div_trunc_neg;
use crate::fixed::lemma_isqrt_spec;
use crate::fixed::mul_div;
use crate::fixed::SCALE;
use crate::vec2::Vec2;

/// Euclidean distance between two positions, rounded down (sub-units).
pub open spec fn dist(p: Vec2, q: Vec2) -> int {
    isqrt_spec(((p.x - q.x) * (p.x - q.x) + (p.y - q.y) * (p.y - q.y)) as nat) as int
}

/// `b` is a different agent within `radius` of `a`. Self-exclusion compares
/// identities, never positions.
pub open spec fn within_range(a: Agent, b: Agent, radius: int) -> bool {
    b.id != a.id && dist(a.position, b.position) < radius
}

/// One close neighbor's repulsion: the unit vector pointing from `b` toward
/// `a`, divided once more by the distance so that closer neighbors repel more
/// strongly. Two coinciding agents repel with the zero vector rather than
/// dividing by a zero distance.
pub open spec fn repulsion(a: Agent, b: Agent) -> (int, int) {
    let d = dist(a.position, b.position);
    if d == 0 {
        (0, 0)
    } else {
        (
            div_trunc((a.position.x - b.position.x) * SCALE * SCALE, d * d),
            div_trunc((a.position.y - b.position.y) * SCALE * SCALE, d * d),
        )
    }
}

/// Totals one agent accumulates over a snapshot: how many agents sit within
/// the neighbor radius, the sums of their positions and velocities, how many
/// sit within the separation radius, and the summed repulsion.
pub struct ScanTotals {
    pub count: int,
    pub pos_x: int,
    pub pos_y: int,
    pub vel_x: int,
    pub vel_y: int,
    pub close: int,
    pub sep_x: int,
    pub sep_y: int,
}

/// The empty scan.
pub open spec fn scan_zero() -> ScanTotals {
    ScanTotals { count: 0, pos_x: 0, pos_y: 0, vel_x: 0, vel_y: 0, close: 0, sep_x: 0, sep_y: 0 }
}

/// Folds one snapshot entry into the totals of agent `a`.
pub open spec fn scan_step(t: ScanTotals, a: Agent, b: Agent, c: Config) -> ScanTotals {
    if b.id == a.id {
        t
    } else {
        let d = dist(a.position, b.position);
        let n = if d < c.neighbor_radius {
            ScanTotals {
                count: t.count + 1,
                pos_x: t.pos_x + b.position.x,
                pos_y: t.pos_y + b.position.y,
                vel_x: t.vel_x + b.velocity.x,
                vel_y: t.vel_y + b.velocity.y,
                close: t.close,
                sep_x: t.sep_x,
                sep_y: t.sep_y,
            }
        } else {
            t
        };
        if d < c.separation_radius {
            let rep = repulsion(a, b);
            ScanTotals {
                count: n.count,
                pos_x: n.pos_x,
                pos_y: n.pos_y,
                vel_x: n.vel_x,
                vel_y: n.vel_y,
                close: n.close + 1,
                sep_x: n.sep_x + rep.0,
                sep_y: n.sep_y + rep.1,
            }
        } else {
            n
        }
    }
}

/// Agent `a`'s scan totals over the whole snapshot `s`.
pub open spec fn scan(s: Seq<Agent>, a: Agent, c: Config) -> ScanTotals
    decreases s.len(),
{
    if s.len() == 0 {
        scan_zero()
    } else {
        scan_step(scan(s.drop_last(), a, c), a, s.last(), c)
    }
}

/// The tail shared by the three steering rules: normalize the accumulated
/// vector `v` (guarded: a zero vector contributes zero), rescale it to
/// `speed`, subtract the agent's velocity, cap the magnitude at `steer`, then
/// weight. All in fixed point with truncation toward zero.
pub open spec fn steer_chain(
    vx: int,
    vy: int,
    vel: Vec2,
    speed: int,
    steer: int,
    weight: int,
) -> (int, int) {
    if vx == 0 && vy == 0 {
        (0, 0)
    } else {
        let len = isqrt_spec((vx * vx + vy * vy) as nat) as int;
        let sx = div_trunc(vx * speed, len) - vel.x;
        let sy = div_trunc(vy * speed, len) - vel.y;
        let sl = isqrt_spec((sx * sx + sy * sy) as nat) as int;
        let cx = if sl > steer {
            div_trunc(sx * steer, sl)
        } else {
            sx
        };
        let cy = if sl > steer {
            div_trunc(sy * steer, sl)
        } else {
            sy
        };
        (div_trunc(cx * weight, SCALE as int), div_trunc(cy * weight, SCALE as int))
    }
}

/// The cohesion rule: steer toward the average neighbor position. No
/// neighbors, or an average equal to the agent's own position, contribute
/// zero.
pub open spec fn cohesion_contrib(c: Config, s: Seq<Agent>, a: Agent) -> (int, int) {
    let t = scan(s, a, c);
    if t.count > 0 {
        steer_chain(
            div_trunc(t.pos_x, t.count) - a.position.x,
            div_trunc(t.pos_y, t.count) - a.position.y,
            a.velocity,
            c.speed as int,
            c.max_steer as int,
            c.cohesion_weight as int,
        )
    } else {
        (0, 0)
    }
}

/// The alignment rule: steer toward the average neighbor velocity.
pub open spec fn alignment_contrib(c: Config, s: Seq<Agent>, a: Agent) -> (int, int) {
    let t = scan(s, a, c);
    if t.count > 0 {
        steer_chain(
            div_trunc(t.vel_x, t.count),
            div_trunc(t.vel_y, t.count),
            a.velocity,
            c.speed as int,
            c.max_steer as int,
            c.alignment_weight as int,
        )
    } else {
        (0, 0)
    }
}

/// The separation rule: steer along the averaged repulsion from agents within
/// the separation radius.
pub open spec fn separation_contrib(c: Config, s: Seq<Agent>, a: Agent) -> (int, int) {
    let t = scan(s, a, c);
    if t.close > 0 {
        steer_chain(
            div_trunc(t.sep_x, t.close),
            div_trunc(t.sep_y, t.close),
            a.velocity,
            c.speed as int,
            c.max_steer as int,
            c.separation_weight as int,
        )
    } else {
        (0, 0)
    }
}

/// The velocity change one tick applies to agent `a`: the sum of the three
/// weighted rule contributions. The sum itself is deliberately uncapped.
pub open spec fn steer_delta(c: Config, s: Seq<Agent>, a: Agent) -> (int, int) {
    let coh = cohesion_contrib(c, s, a);
    let ali = alignment_contrib(c, s, a);
    let sep = separation_contrib(c, s, a);
    (coh.0 + ali.0 + sep.0, coh.1 + ali.1 + sep.1)
}

/// Distance dominates each coordinate difference, and is symmetric.
pub proof fn lemma_dist_facts(p: Vec2, q: Vec2)
    ensures
        dist(p, q) >= 0,
        -dist(p, q) <= p.x - q.x <= dist(p, q),
        -dist(p, q) <= p.y - q.y <= dist(p, q),
        dist(p, q) == dist(q, p),
{
    lemma_comp_le_len(p.x - q.x, p.y - q.y);
    assert((p.x - q.x) * (p.x - q.x) == (q.x - p.x) * (q.x - p.x)) by (nonlinear_arith);
    assert((p.y - q.y) * (p.y - q.y) == (q.y - p.y) * (q.y - p.y)) by (nonlinear_arith);
}

/// Each repulsion component is at most `SCALE * SCALE` in magnitude.
pub proof fn lemma_repulsion_bound(a: Agent, b: Agent)
    ensures
        -(SCALE as int * SCALE as int) <= repulsion(a, b).0 <= SCALE as int * SCALE as int,
        -(SCALE as int * SCALE as int) <= repulsion(a, b).1 <= SCALE as int * SCALE as int,
{
    let d = dist(a.position, b.position);
    lemma_dist_facts(a.position, b.position);
    if d != 0 {
        let dx = a.position.x - b.position.x;
        let dy = a.position.y - b.position.y;
        let ss = SCALE as int * SCALE as int;
        assert(-(d * d * ss) <= dx * SCALE as int * SCALE as int <= d * d * ss)
            by (nonlinear_arith)
            requires
                -d <= dx <= d,
                d >= 1,
                ss == SCALE as int * SCALE as int,
                SCALE == 1000,
        ;
        assert(-(d * d * ss) <= dy * SCALE as int * SCALE as int <= d * d * ss)
            by (nonlinear_arith)
            requires
                -d <= dy <= d,
                d >= 1,
                ss == SCALE as int * SCALE as int,
                SCALE == 1000,
        ;
        assert(d * d >= 1) by (nonlinear_arith)
            requires
                d >= 1,
        ;
        lemma_div_trunc_mul_bound(dx * SCALE as int * SCALE as int, d * d, ss);
        lemma_div_trunc_mul_bound(dy * SCALE as int * SCALE as int, d * d, ss);
    }
}

/// Bounds on everything a scan can accumulate over a bounded snapshot.
pub proof fn lemma_scan_bounds(s: Seq<Agent>, a: Agent, c: Config)
    requires
        all_bounded(s),
    ensures
        0 <= scan(s, a, c).count <= s.len(),
        0 <= scan(s, a, c).close <= s.len(),
        -(scan(s, a, c).count * MAX_COORD as int) <= scan(s, a, c).pos_x <= scan(s, a, c).count
            * MAX_COORD as int,
        -(scan(s, a, c).count * MAX_COORD as int) <= scan(s, a, c).pos_y <= scan(s, a, c).count
            * MAX_COORD as int,
        -(scan(s, a, c).count * MAX_COORD as int) <= scan(s, a, c).vel_x <= scan(s, a, c).count
            * MAX_COORD as int,
        -(scan(s, a, c).count * MAX_COORD as int) <= scan(s, a, c).vel_y <= scan(s, a, c).count
            * MAX_COORD as int,
        -(scan(s, a, c).close * SCALE as int * SCALE as int) <= scan(s, a, c).sep_x <= scan(
            s,
            a,
            c,
        ).close * SCALE as int * SCALE as int,
        -(scan(s, a, c).close * SCALE as int * SCALE as int) <= scan(s, a, c).sep_y <= scan(
            s,
            a,
            c,
        ).close * SCALE as int * SCALE as int,
    decreases s.len(),
{
    if s.len() > 0 {
        assert(all_bounded(s.drop_last())) by {
            assert(forall|i: int|
                0 <= i < s.drop_last().len() ==> s.drop_last()[i] == s[i] && #[trigger] s[i].bounded());
            assert(forall|i: int|
                0 <= i < s.drop_last().len() ==> #[trigger] s.drop_last()[i].bounded());
        }
        lemma_scan_bounds(s.drop_last(), a, c);
        lemma_repulsion_bound(a, s.last());
        assert(s.last().bounded());
    }
}

/// Each weighted steering contribution is capped at `MAX_CONTRIB` per
/// component, whatever the scan accumulated.
pub proof fn lemma_chain_bound(vx: int, vy: int, vel: Vec2, speed: int, steer: int, weight: int)
    requires
        0 < steer <= MAX_PARAM as int,
        0 <= weight <= MAX_WEIGHT as int,
    ensures
        -(MAX_CONTRIB as int) <= steer_chain(vx, vy, vel, speed, steer, weight).0
            <= MAX_CONTRIB as int,
        -(MAX_CONTRIB as int) <= steer_chain(vx, vy, vel, speed, steer, weight).1
            <= MAX_CONTRIB as int,
{
    if !(vx == 0 && vy == 0) {
        let len = isqrt_spec((vx * vx + vy * vy) as nat) as int;
        let sx = div_trunc(vx * speed, len) - vel.x;
        let sy = div_trunc(vy * speed, len) - vel.y;
        let sl = isqrt_spec((sx * sx + sy * sy) as nat) as int;
        lemma_comp_le_len(sx, sy);
        let cx = if sl > steer {
            div_trunc(sx * steer, sl)
        } else {
            sx
        };
        let cy = if sl > steer {
            div_trunc(sy * steer, sl)
        } else {
            sy
        };
        if sl > steer {
            assert(-(sl * steer) <= sx * steer <= sl * steer) by (nonlinear_arith)
                requires
                    -sl <= sx <= sl,
                    steer > 0,
            ;
            assert(-(sl * steer) <= sy * steer <= sl * steer) by (nonlinear_arith)
                requires
                    -sl <= sy <= sl,
                    steer > 0,
            ;
            lemma_div_trunc_mul_bound(sx * steer, sl, steer);
            lemma_div_trunc_mul_bound(sy * steer, sl, steer);
        }
        assert(-steer <= cx <= steer && -steer <= cy <= steer);
        assert(-(SCALE as int * MAX_CONTRIB as int) <= cx * weight <= SCALE as int
            * MAX_CONTRIB as int) by (nonlinear_arith)
            requires
                -steer <= cx <= steer,
                0 < steer <= MAX_PARAM as int,
                0 <= weight <= MAX_WEIGHT as int,
                MAX_PARAM == 1_000_000_000,
                MAX_WEIGHT == 1_000_000,
                MAX_CONTRIB == 1_000_000_000_000,
                SCALE == 1000,
        ;
        assert(-(SCALE as int * MAX_CONTRIB as int) <= cy * weight <= SCALE as int
            * MAX_CONTRIB as int) by (nonlinear_arith)
            requires
                -steer <= cy <= steer,
                0 < steer <= MAX_PARAM as int,
                0 <= weight <= MAX_WEIGHT as int,
                MAX_PARAM == 1_000_000_000,
                MAX_WEIGHT == 1_000_000,
                MAX_CONTRIB == 1_000_000_000_000,
                SCALE == 1000,
        ;
        lemma_div_trunc_mul_bound(cx * weight, SCALE as int, MAX_CONTRIB as int);
        lemma_div_trunc_mul_bound(cy * weight, SCALE as int, MAX_CONTRIB as int);
    }
}

/// An agent with no other agent within either sensing radius accumulates
/// nothing at all.
pub proof fn lemma_isolated_scan(s: Seq<Agent>, a: Agent, c: Config)
    requires
        forall|j: int|
            0 <= j < s.len() ==> !within_range(a, #[trigger] s[j], c.neighbor_radius as int)
                && !within_range(a, s[j], c.separation_radius as int),
    ensures
        scan(s, a, c) == scan_zero(),
    decreases s.len(),
{
    if s.len() > 0 {
        assert(forall|j: int|
            0 <= j < s.drop_last().len() ==> #[trigger] s.drop_last()[j] == s[j]);
        lemma_isolated_scan(s.drop_last(), a, c);
        assert(!within_range(a, s.last(), c.neighbor_radius as int) && !within_range(
            a,
            s.last(),
            c.separation_radius as int,
        ));
    }
}

/// Isolation: an agent with no other agent within `neighbor_radius` or
/// `separation_radius` receives the zero steering delta, so one tick leaves
/// its velocity unchanged.
pub proof fn lemma_isolation(c: Config, s: Seq<Agent>, a: Agent)
    requires
        forall|j: int|
            0 <= j < s.len() ==> !within_range(a, #[trigger] s[j], c.neighbor_radius as int)
                && !within_range(a, s[j], c.separation_radius as int),
    ensures
        steer_delta(c, s, a).0 == 0,
        steer_delta(c, s, a).1 == 0,
{
    lemma_isolated_scan(s, a, c);
}

/// The steering tail is odd: negating the accumulated vector and the agent
/// velocity negates the weighted contribution.
pub proof fn lemma_chain_odd(
    vx: int,
    vy: int,
    vel: Vec2,
    nvel: Vec2,
    speed: int,
    steer: int,
    weight: int,
)
    requires
        nvel.x as int == -(vel.x as int),
        nvel.y as int == -(vel.y as int),
        steer >= 0,
    ensures
        steer_chain(-vx, -vy, nvel, speed, steer, weight).0 == -steer_chain(
            vx,
            vy,
            vel,
            speed,
            steer,
            weight,
        ).0,
        steer_chain(-vx, -vy, nvel, speed, steer, weight).1 == -steer_chain(
            vx,
            vy,
            vel,
            speed,
            steer,
            weight,
        ).1,
{
    if !(vx == 0 && vy == 0) {
        assert((-vx) * (-vx) == vx * vx && (-vy) * (-vy) == vy * vy && (-vx) * speed == -(vx
            * speed) && (-vy) * speed == -(vy * speed)) by (nonlinear_arith);
        let len = isqrt_spec((vx * vx + vy * vy) as nat) as int;
        assert(vx * vx + vy * vy >= vx * vx >= 0) by (nonlinear_arith);
        assert(len >= 1) by {
            lemma_isqrt_spec((vx * vx + vy * vy) as nat);
            if len == 0 {
                assert((len + 1) * (len + 1) == 1) by (nonlinear_arith)
                    requires
                        len == 0,
                ;
                assert(vx * vx + vy * vy == 0);
                assert(vx * vx >= 1 || vy * vy >= 1) by (nonlinear_arith)
                    requires
                        vx != 0 || vy != 0,
                ;
                assert(vx * vx >= 0 && vy * vy >= 0) by (nonlinear_arith);
                assert(false);
            }
        }
        lemma_div_trunc_neg(vx * speed, len);
        lemma_div_trunc_neg(vy * speed, len);
        let sx = div_trunc(vx * speed, len) - vel.x;
        let sy = div_trunc(vy * speed, len) - vel.y;
        assert((-sx) * (-sx) == sx * sx && (-sy) * (-sy) == sy * sy) by (nonlinear_arith);
        let sl = isqrt_spec((sx * sx + sy * sy) as nat) as int;
        if sl > steer {
            assert((-sx) * steer == -(sx * steer) && (-sy) * steer == -(sy * steer))
                by (nonlinear_arith);
            lemma_div_trunc_neg(sx * steer, sl);
            lemma_div_trunc_neg(sy * steer, sl);
        }
        let cx = if sl > steer {
            div_trunc(sx * steer, sl)
        } else {
            sx
        };
        let cy = if sl > steer {
            div_trunc(sy * steer, sl)
        } else {
            sy
        };
        assert((-cx) * weight == -(cx * weight) && (-cy) * weight == -(cy * weight))
            by (nonlinear_arith);
        lemma_div_trunc_neg(cx * weight, SCALE as int);
        lemma_div_trunc_neg(cy * weight, SCALE as int);
    }
}

/// Repulsion is antisymmetric: swapping the two agents negates it exactly.
pub proof fn lemma_repulsion_antisym(a: Agent, b: Agent)
    ensures
        repulsion(b, a).0 == -repulsion(a, b).0,
        repulsion(b, a).1 == -repulsion(a, b).1,
{
    lemma_dist_facts(a.position, b.position);
    let d = dist(a.position, b.position);
    if d != 0 {
        assert(d * d >= 1) by (nonlinear_arith)
            requires
                d >= 1,
        ;
        let dx = a.position.x - b.position.x;
        let dy = a.position.y - b.position.y;
        assert((-dx) * SCALE as int * SCALE as int == -(dx * SCALE as int * SCALE as int) && (-dy)
            * SCALE as int * SCALE as int == -(dy * SCALE as int * SCALE as int))
            by (nonlinear_arith);
        lemma_div_trunc_neg(dx * SCALE as int * SCALE as int, d * d);
        lemma_div_trunc_neg(dy * SCALE as int * SCALE as int, d * d);
    }
}

/// Repulsion points away from the other agent: componentwise it never opposes
/// the difference vector from `b` to `a`.
pub proof fn lemma_repulsion_away(a: Agent, b: Agent)
    ensures
        (a.position.x - b.position.x) * repulsion(a, b).0 >= 0,
        (a.position.y - b.position.y) * repulsion(a, b).1 >= 0,
{
    lemma_dist_facts(a.position, b.position);
    let d = dist(a.position, b.position);
    let dx = a.position.x - b.position.x;
    let dy = a.position.y - b.position.y;
    if d == 0 {
        assert(dx * 0 == 0 && dy * 0 == 0) by (nonlinear_arith);
    } else {
        assert(d * d >= 1) by (nonlinear_arith)
            requires
                d >= 1,
        ;
        let px = dx * SCALE as int * SCALE as int;
        let py = dy * SCALE as int * SCALE as int;
        assert(dx >= 0 ==> px >= 0 && dx < 0 ==> px < 0) by (nonlinear_arith);
        assert(dy >= 0 ==> py >= 0 && dy < 0 ==> py < 0) by (nonlinear_arith);
        if px >= 0 {
            vstd::arithmetic::div_mod::lemma_div_pos_is_pos(px, d * d);
        } else {
            vstd::arithmetic::div_mod::lemma_div_pos_is_pos(-px, d * d);
        }
        if py >= 0 {
            vstd::arithmetic::div_mod::lemma_div_pos_is_pos(py, d * d);
        } else {
            vstd::arithmetic::div_mod::lemma_div_pos_is_pos(-py, d * d);
        }
        assert(dx * div_trunc(px, d * d) >= 0) by (nonlinear_arith)
            requires
                dx >= 0 ==> div_trunc(px, d * d) >= 0,
                dx < 0 ==> div_trunc(px, d * d) <= 0,
        ;
        assert(dy * div_trunc(py, d * d) >= 0) by (nonlinear_arith)
            requires
                dy >= 0 ==> div_trunc(py, d * d) >= 0,
                dy < 0 ==> div_trunc(py, d * d) <= 0,
        ;
    }
}

/// The scan of a population of exactly two distinct agents, seen from the
/// first: the totals are what the other agent alone supplies.
pub proof fn lemma_two_agent_scan(c: Config, a: Agent, b: Agent)
    requires
        a.id != b.id,
    ensures
        scan(seq![a, b], a, c) == scan_step(scan_zero(), a, b, c),
        scan(seq![b, a], a, c) == scan_step(scan_zero(), a, b, c),
{
    let s = seq![a, b];
    assert(s.drop_last() =~= seq![a]);
    assert(seq![a].drop_last() =~= Seq::<Agent>::empty());
    assert(scan(seq![a].drop_last(), a, c) == scan_zero());
    assert(scan(seq![a], a, c) == scan_step(scan_zero(), a, seq![a].last(), c));
    assert(seq![a].last() == a);
    assert(scan(s, a, c) == scan_step(scan(seq![a], a, c), a, s.last(), c));
    let t = seq![b, a];
    assert(t.drop_last() =~= seq![b]);
    assert(seq![b].drop_last() =~= Seq::<Agent>::empty());
    assert(scan(seq![b], a, c) == scan_step(scan_zero(), a, seq![b].last(), c));
    assert(scan(t, a, c) == scan_step(scan(seq![b], a, c), a, t.last(), c));
}

/// Symmetric repulsion: two distinct agents closer than the separation radius
/// repel each other with exactly opposite separation contributions whenever
/// their velocities are opposite (in particular when both are at rest), and
/// each accumulated repulsion points away from the other agent along each
/// axis.
pub proof fn lemma_symmetric_repulsion(c: Config, a: Agent, b: Agent)
    requires
        c.valid(),
        a.id != b.id,
        b.velocity.x as int == -(a.velocity.x as int),
        b.velocity.y as int == -(a.velocity.y as int),
        dist(a.position, b.position) < c.separation_radius,
    ensures
        scan(seq![a, b], a, c).sep_x == repulsion(a, b).0,
        scan(seq![a, b], a, c).sep_y == repulsion(a, b).1,
        scan(seq![a, b], b, c).sep_x == -repulsion(a, b).0,
        scan(seq![a, b], b, c).sep_y == -repulsion(a, b).1,
        (a.position.x - b.position.x) * repulsion(a, b).0 >= 0,
        (a.position.y - b.position.y) * repulsion(a, b).1 >= 0,
        separation_contrib(c, seq![a, b], a).0 == -separation_contrib(c, seq![a, b], b).0,
        separation_contrib(c, seq![a, b], a).1 == -separation_contrib(c, seq![a, b], b).1,
{
    lemma_two_agent_scan(c, a, b);
    lemma_two_agent_scan(c, b, a);
    assert(seq![b, a] =~= seq![a, b].reverse());
    lemma_dist_facts(a.position, b.position);
    lemma_repulsion_antisym(a, b);
    lemma_repulsion_away(a, b);
    let sa = scan(seq![a, b], a, c);
    let sb = scan(seq![a, b], b, c);
    assert(scan(seq![a, b], b, c) == scan_step(scan_zero(), b, a, c)) by {
        let s = seq![a, b];
        assert(s.drop_last() =~= seq![a]);
        assert(seq![a].drop_last() =~= Seq::<Agent>::empty());
        assert(scan(seq![a], b, c) == scan_step(scan_zero(), b, a, c));
        assert(scan(s, b, c) == scan_step(scan(seq![a], b, c), b, s.last(), c));
        assert(scan_step(scan_step(scan_zero(), b, a, c), b, b, c) == scan_step(
            scan_zero(),
            b,
            a,
            c,
        ));
    }
    assert(sa.close == 1 && sb.close == 1);
    vstd::arithmetic::div_mod::lemma_div_basics(repulsion(a, b).0);
    vstd::arithmetic::div_mod::lemma_div_basics(repulsion(a, b).1);
    vstd::arithmetic::div_mod::lemma_div_basics(-repulsion(a, b).0);
    vstd::arithmetic::div_mod::lemma_div_basics(-repulsion(a, b).1);
    assert(div_trunc(sa.sep_x, 1) == sa.sep_x && div_trunc(sa.sep_y, 1) == sa.sep_y);
    assert(div_trunc(sb.sep_x, 1) == sb.sep_x && div_trunc(sb.sep_y, 1) == sb.sep_y);
    lemma_chain_odd(
        sa.sep_x,
        sa.sep_y,
        a.velocity,
        b.velocity,
        c.speed as int,
        c.max_steer as int,
        c.separation_weight as int,
    );
}

/// Squared length of an `i64` vector whose components are at most
/// `2 * MAX_COORD` in magnitude; the result fits comfortably in `u64`.
fn norm2_exec(x: i64, y: i64) -> (r: u64)
    requires
        -2 * MAX_COORD as int <= x <= 2 * MAX_COORD as int,
        -2 * MAX_COORD as int <= y <= 2 * MAX_COORD as int,
    ensures
        r as int == x * x + y * y,
        r <= 8_000_000_000_000_000_000,
{
    proof {
        assert(0 <= x as int * x as int <= 4_000_000_000_000_000_000 && 0 <= y as int * y as int
            <= 4_000_000_000_000_000_000) by (nonlinear_arith)
            requires
                -2_000_000_000 <= x as int <= 2_000_000_000,
                -2_000_000_000 <= y as int <= 2_000_000_000,
        ;
    }
    let px: i128 = (x as i128) * (x as i128);
    let py: i128 = (y as i128) * (y as i128);
    (px + py) as u64
}

/// Runs the shared steering tail on concrete values.
fn apply_steer_chain(vx: i64, vy: i64, vel: Vec2, speed: i64, steer: i64, weight: i64) -> (r: Vec2)
    requires
        -2 * MAX_COORD as int <= vx <= 2 * MAX_COORD as int,
        -2 * MAX_COORD as int <= vy <= 2 * MAX_COORD as int,
        vel.within(MAX_COORD as int),
        0 < speed <= MAX_PARAM,
        0 < steer <= MAX_PARAM,
        0 <= weight <= MAX_WEIGHT,
    ensures
        r.x == steer_chain(vx as int, vy as int, vel, speed as int, steer as int, weight as int).0,
        r.y == steer_chain(vx as int, vy as int, vel, speed as int, steer as int, weight as int).1,
        r.within(MAX_CONTRIB as int),
{
    proof {
        lemma_chain_bound(vx as int, vy as int, vel, speed as int, steer as int, weight as int);
    }
    if vx == 0 && vy == 0 {
        return Vec2 { x: 0, y: 0 };
    }
    let n2: u64 = norm2_exec(vx, vy);
    let len64: u64 = isqrt(n2);
    proof {
        assert(len64 as int <= 3_000_000_000) by (nonlinear_arith)
            requires
                len64 as int * len64 as int <= 8_000_000_000_000_000_000,
                len64 >= 0,
        ;
        assert(vx as int * vx as int >= 1 || vy as int * vy as int >= 1) by (nonlinear_arith)
            requires
                vx != 0 || vy != 0,
        ;
        assert(vx as int * vx as int >= 0 && vy as int * vy as int >= 0) by (nonlinear_arith);
    }
    let len: i64 = len64 as i64;
    proof {
        assert(len64 as int >= 1) by {
            if len64 == 0 {
                assert((len64 as int + 1) * (len64 as int + 1) == 1) by (nonlinear_arith)
                    requires
                        len64 as int == 0,
                ;
                assert(false);
            }
        }
        assert(len >= 1);
        lemma_comp_le_len(vx as int, vy as int);
        assert(-(len as int) <= vx as int <= len as int && -(len as int) <= vy as int
            <= len as int);
        assert(-(len as int * speed as int) <= vx as int * speed as int <= len as int
            * speed as int && -(len as int * speed as int) <= vy as int * speed as int <= len as int
            * speed as int) by (nonlinear_arith)
            requires
                -(len as int) <= vx as int <= len as int,
                -(len as int) <= vy as int <= len as int,
                speed > 0,
        ;
        lemma_div_trunc_mul_bound(vx as int * speed as int, len as int, speed as int);
        lemma_div_trunc_mul_bound(vy as int * speed as int, len as int, speed as int);
    }
    let nx: i64 = mul_div(vx, speed, len);
    let ny: i64 = mul_div(vy, speed, len);
    let sx: i64 = nx - vel.x;
    let sy: i64 = ny - vel.y;
    let s2: u64 = norm2_exec(sx, sy);
    let sl64: u64 = isqrt(s2);
    proof {
        assert(sl64 as int <= 3_000_000_000) by (nonlinear_arith)
            requires
                sl64 as int * sl64 as int <= 8_000_000_000_000_000_000,
                sl64 >= 0,
        ;
        lemma_comp_le_len(sx as int, sy as int);
    }
    let sl: i64 = sl64 as i64;
    let cx: i64;
    let cy: i64;
    if sl > steer {
        proof {
            assert(-(sl as int * steer as int) <= sx as int * steer as int <= sl as int
                * steer as int && -(sl as int * steer as int) <= sy as int * steer as int
                <= sl as int * steer as int) by (nonlinear_arith)
                requires
                    -(sl as int) <= sx as int <= sl as int,
                    -(sl as int) <= sy as int <= sl as int,
                    steer > 0,
            ;
            lemma_div_trunc_mul_bound(sx as int * steer as int, sl as int, steer as int);
            lemma_div_trunc_mul_bound(sy as int * steer as int, sl as int, steer as int);
        }
        cx = mul_div(sx, steer, sl);
        cy = mul_div(sy, steer, sl);
    } else {
        cx = sx;
        cy = sy;
    }
    proof {
        assert(-(SCALE as int * 4_000_000_000_000_000) <= cx as int * weight as int <= SCALE as int
            * 4_000_000_000_000_000 && -(SCALE as int * 4_000_000_000_000_000) <= cy as int
            * weight as int <= SCALE as int * 4_000_000_000_000_000) by (nonlinear_arith)
            requires
                -4_000_000_000 <= cx as int <= 4_000_000_000,
                -4_000_000_000 <= cy as int <= 4_000_000_000,
                0 <= weight <= 1_000_000,
                SCALE == 1000,
        ;
        lemma_div_trunc_mul_bound(cx as int * weight as int, SCALE as int, 4_000_000_000_000_000);
        lemma_div_trunc_mul_bound(cy as int * weight as int, SCALE as int, 4_000_000_000_000_000);
    }
    let rx: i64 = mul_div(cx, weight, SCALE);
    let ry: i64 = mul_div(cy, weight, SCALE);
    Vec2 { x: rx, y: ry }
}

/// The combined velocity change of one tick is at most `3 * MAX_CONTRIB` per
/// component.
pub proof fn lemma_steer_delta_bound(c: Config, s: Seq<Agent>, a: Agent)
    requires
        c.valid(),
    ensures
        -3 * MAX_CONTRIB as int <= steer_delta(c, s, a).0 <= 3 * MAX_CONTRIB as int,
        -3 * MAX_CONTRIB as int <= steer_delta(c, s, a).1 <= 3 * MAX_CONTRIB as int,
{
    let t = scan(s, a, c);
    if t.count > 0 {
        lemma_chain_bound(
            div_trunc(t.pos_x, t.count) - a.position.x,
            div_trunc(t.pos_y, t.count) - a.position.y,
            a.velocity,
            c.speed as int,
            c.max_steer as int,
            c.cohesion_weight as int,
        );
        lemma_chain_bound(
            div_trunc(t.vel_x, t.count),
            div_trunc(t.vel_y, t.count),
            a.velocity,
            c.speed as int,
            c.max_steer as int,
            c.alignment_weight as int,
        );
    }
    if t.close > 0 {
        lemma_chain_bound(
            div_trunc(t.sep_x, t.close),
            div_trunc(t.sep_y, t.close),
            a.velocity,
            c.speed as int,
            c.max_steer as int,
            c.separation_weight as int,
        );
    }
}

/// Computes the steering delta of the agent at `i` against the frozen
/// snapshot `snap`, exactly as [`steer_delta`] states it.
pub fn steer_delta_exec(c: &Config, snap: &Vec<Agent>, i: usize) -> (r: Vec2)
    requires
        c.valid(),
        all_bounded(snap@),
        snap@.len() <= MAX_POPULATION,
        i < snap@.len(),
    ensures
        r.x == steer_delta(*c, snap@, snap@[i as int]).0,
        r.y == steer_delta(*c, snap@, snap@[i as int]).1,
        r.within(3 * MAX_CONTRIB as int),
{
    let a: Agent = snap[i];
    let mut count: i64 = 0;
    let mut pos_x: i64 = 0;
    let mut pos_y: i64 = 0;
    let mut vel_x: i64 = 0;
    let mut vel_y: i64 = 0;
    let mut close: i64 = 0;
    let mut sep_x: i64 = 0;
    let mut sep_y: i64 = 0;
    let mut j: usize = 0;
    proof {
        assert(snap@.take(0) =~= Seq::<Agent>::empty());
    }
    while j < snap.len()
        invariant
            c.valid(),
            all_bounded(snap@),
            snap@.len() <= MAX_POPULATION,
            i < snap@.len(),
            a == snap@[i as int],
            0 <= j <= snap@.len(),
            count == scan(snap@.take(j as int), a, *c).count,
            pos_x == scan(snap@.take(j as int), a, *c).pos_x,
            pos_y == scan(snap@.take(j as int), a, *c).pos_y,
            vel_x == scan(snap@.take(j as int), a, *c).vel_x,
            vel_y == scan(snap@.take(j as int), a, *c).vel_y,
            close == scan(snap@.take(j as int), a, *c).close,
            sep_x == scan(snap@.take(j as int), a, *c).sep_x,
            sep_y == scan(snap@.take(j as int), a, *c).sep_y,
        decreases snap@.len() - j,
    {
        let b: Agent = snap[j];
        proof {
            assert(all_bounded(snap@.take(j as int))) by {
                assert(forall|k: int|
                    0 <= k < j ==> snap@.take(j as int)[k] == snap@[k]
                        && (#[trigger] snap@[k]).bounded());
                assert(forall|k: int|
                    0 <= k < j ==> #[trigger] snap@.take(j as int)[k].bounded());
            }
            lemma_scan_bounds(snap@.take(j as int), a, *c);
            assert(snap@.take(j as int + 1).drop_last() =~= snap@.take(j as int));
            assert(snap@.take(j as int + 1).last() == snap@[j as int]);
            assert(scan(snap@.take(j as int + 1), a, *c) == scan_step(
                scan(snap@.take(j as int), a, *c),
                a,
                b,
                *c,
            ));
            assert(a.bounded() && b.bounded());
            assert(count * MAX_COORD as int <= 1_000_000_000_000_000 && close * (SCALE as int
                * SCALE as int) <= 1_000_000_000_000) by (nonlinear_arith)
                requires
                    0 <= count <= 1_000_000,
                    0 <= close <= 1_000_000,
                    SCALE == 1000,
                    MAX_COORD == 1_000_000_000,
            ;
        }
        if b.id != a.id {
            let dx: i64 = a.position.x - b.position.x;
            let dy: i64 = a.position.y - b.position.y;
            let d2: u64 = norm2_exec(dx, dy);
            let d64: u64 = isqrt(d2);
            proof {
                assert(d64 as int <= 3_000_000_000) by (nonlinear_arith)
                    requires
                        d64 as int * d64 as int <= 8_000_000_000_000_000_000,
                        d64 >= 0,
                ;
                assert(d64 as int == dist(a.position, b.position));
                lemma_dist_facts(a.position, b.position);
                lemma_repulsion_bound(a, b);
            }
            let d: i64 = d64 as i64;
            if d < c.neighbor_radius {
                count = count + 1;
                pos_x = pos_x + b.position.x;
                pos_y = pos_y + b.position.y;
                vel_x = vel_x + b.velocity.x;
                vel_y = vel_y + b.velocity.y;
            }
            if d < c.separation_radius {
                if d > 0 {
                    let dd: i64 = d * d;
                    proof {
                        assert(dd >= 1 && d as int <= dd as int) by (nonlinear_arith)
                            requires
                                d >= 1,
                                dd == d * d,
                        ;
                        assert(-(dd as int * 1_000_000) <= dx as int * 1_000_000 <= dd as int
                            * 1_000_000 && -(dd as int * 1_000_000) <= dy as int * 1_000_000
                            <= dd as int * 1_000_000) by (nonlinear_arith)
                            requires
                                -(d as int) <= dx as int <= d as int,
                                -(d as int) <= dy as int <= d as int,
                                1 <= d as int <= dd as int,
                        ;
                        lemma_div_trunc_mul_bound(dx as int * 1_000_000, dd as int, 1_000_000);
                        lemma_div_trunc_mul_bound(dy as int * 1_000_000, dd as int, 1_000_000);
                        assert(dx as int * SCALE as int * SCALE as int == dx as int * 1_000_000);
                        assert(dy as int * SCALE as int * SCALE as int == dy as int * 1_000_000);
                    }
                    let tx: i64 = mul_div(dx, 1_000_000, dd);
                    let ty: i64 = mul_div(dy, 1_000_000, dd);
                    sep_x = sep_x + tx;
                    sep_y = sep_y + ty;
                }
                close = close + 1;
            }
        }
        j = j + 1;
    }
    proof {
        assert(snap@.take(snap@.len() as int) =~= snap@);
        lemma_scan_bounds(snap@, a, *c);
        assert(count * MAX_COORD as int <= 1_000_000_000_000_000 && close * (SCALE as int
            * SCALE as int) <= 1_000_000_000_000) by (nonlinear_arith)
            requires
                0 <= count <= 1_000_000,
                0 <= close <= 1_000_000,
                SCALE == 1000,
                MAX_COORD == 1_000_000_000,
        ;
        assert(a.bounded());
    }
    let coh: Vec2;
    let ali: Vec2;
    if count > 0 {
        proof {
            lemma_div_trunc_mul_bound(pos_x as int, count as int, MAX_COORD as int);
            lemma_div_trunc_mul_bound(pos_y as int, count as int, MAX_COORD as int);
            lemma_div_trunc_mul_bound(vel_x as int, count as int, MAX_COORD as int);
            lemma_div_trunc_mul_bound(vel_y as int, count as int, MAX_COORD as int);
        }
        let avg_px: i64 = div_trunc_i64(pos_x, count);
        let avg_py: i64 = div_trunc_i64(pos_y, count);
        let avg_vx: i64 = div_trunc_i64(vel_x, count);
        let avg_vy: i64 = div_trunc_i64(vel_y, count);
        coh = apply_steer_chain(
            avg_px - a.position.x,
            avg_py - a.position.y,
            a.velocity,
            c.speed,
            c.max_steer,
            c.cohesion_weight,
        );
        ali = apply_steer_chain(
            avg_vx,
            avg_vy,
            a.velocity,
            c.speed,
            c.max_steer,
            c.alignment_weight,
        );
    } else {
        coh = Vec2 { x: 0, y: 0 };
        ali = Vec2 { x: 0, y: 0 };
    }
    let sep: Vec2;
    if close > 0 {
        proof {
            assert(close as int * (SCALE as int * SCALE as int) == close as int * SCALE as int
                * SCALE as int) by (nonlinear_arith);
            lemma_div_trunc_mul_bound(sep_x as int, close as int, SCALE as int * SCALE as int);
            lemma_div_trunc_mul_bound(sep_y as int, close as int, SCALE as int * SCALE as int);
        }
        let avg_sx: i64 = div_trunc_i64(sep_x, close);
        let avg_sy: i64 = div_trunc_i64(sep_y, close);
        sep = apply_steer_chain(
            avg_sx,
            avg_sy,
            a.velocity,
            c.speed,
            c.max_steer,
            c.separation_weight,
        );
    } else {
        sep = Vec2 { x: 0, y: 0 };
    }
    Vec2 { x: coh.x + ali.x + sep.x, y: coh.y + ali.y + sep.y }
}

/// Recomputes every agent's velocity from the frozen snapshot of the whole
/// population, the per-tick steering pass. Identities and positions are
/// untouched; each agent's new velocity is its old velocity plus exactly the
/// delta [`steer_delta`] states for it over the snapshot.
pub fn flock(c: &Config, agents: &mut Vec<Agent>)
    requires
        c.valid(),
        all_bounded(old(agents)@),
        old(agents)@.len() <= MAX_POPULATION,
    ensures
        final(agents)@.len() == old(agents)@.len(),
        forall|k: int|
            0 <= k < old(agents)@.len() ==> {
                &&& (#[trigger] final(agents)@[k]).id == old(agents)@[k].id
                &&& final(agents)@[k].position == old(agents)@[k].position
                &&& final(agents)@[k].velocity.x as int == old(agents)@[k].velocity.x
                    + steer_delta(*c, old(agents)@, old(agents)@[k]).0
                &&& final(agents)@[k].velocity.y as int == old(agents)@[k].velocity.y
                    + steer_delta(*c, old(agents)@, old(agents)@[k]).1
                &&& final(agents)@[k].velocity.within(
                    MAX_COORD as int + 3 * MAX_CONTRIB as int,
                )
            },
{
    let n: usize = agents.len();
    let mut snap: Vec<Agent> = Vec::new();
    let mut t: usize = 0;
    while t < n
        invariant
            n == agents@.len(),
            0 <= t <= n,
            snap@.len() == t as int,
            forall|k: int| 0 <= k < t ==> snap@[k] == agents@[k],
        decreases n - t,
    {
        let b: Agent = agents[t];
        snap.push(b);
        t = t + 1;
    }
    proof {
        assert(snap@ =~= agents@);
    }
    let mut k: usize = 0;
    while k < n
        invariant
            c.valid(),
            all_bounded(snap@),
            snap@.len() <= MAX_POPULATION,
            n == snap@.len(),
            agents@.len() == n as int,
            0 <= k <= n,
            forall|m: int| k <= m < n ==> agents@[m] == snap@[m],
            forall|m: int|
                0 <= m < k ==> {
                    &&& (#[trigger] agents@[m]).id == snap@[m].id
                    &&& agents@[m].position == snap@[m].position
                    &&& agents@[m].velocity.x as int == snap@[m].velocity.x + steer_delta(
                        *c,
                        snap@,
                        snap@[m],
                    ).0
                    &&& agents@[m].velocity.y as int == snap@[m].velocity.y + steer_delta(
                        *c,
                        snap@,
                        snap@[m],
                    ).1
                    &&& agents@[m].velocity.within(MAX_COORD as int + 3 * MAX_CONTRIB as int)
                },
        decreases n - k,
    {
        let d: Vec2 = steer_delta_exec(c, &snap, k);
        let old_agent: Agent = agents[k];
        proof {
            assert(old_agent.bounded());
        }
        let updated: Agent = Agent {
            id: old_agent.id,
            position: old_agent.position,
            velocity: Vec2 { x: old_agent.velocity.x + d.x, y: old_agent.velocity.y + d.y },
        };
        agents.set(k, updated);
        k = k + 1;
    }
}

} // verus!
