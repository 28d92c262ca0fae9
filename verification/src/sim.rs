//! The simulation clock: one fixed tick runs the neighbor scan and steering
//! pass, the integrator, and the boundary wrap, in that order, to completion.

use vstd::prelude::*;

verus! {

use crate::agent::all_bounded;
use crate::agent::Agent;
use crate::config::Config;
use crate::config::ConfigError;
use crate::config::MAX_CONTRIB;
use crate::config::MAX_COORD;
use crate::config::MAX_POPULATION;
use crate::fixed::lemma_div_trunc_bound;
use crate::fixed::SCALE;
use crate::motion::integrate;
use crate::motion::integrate_coord;
use crate::motion::wrap;
use crate::motion::wrap_coord;
use crate::motion::MAX_STEP_VEL;
use crate::motion::TICKS_PER_SECOND;
use crate::rng::rand_range_i64;
use crate::steer::flock;
use crate::steer::lemma_isolation;
use crate::steer::lemma_steer_delta_bound;
use crate::steer::steer_delta;
use crate::steer::within_range;
use crate::vec2::Vec2;

/// The store after the steering pass: every velocity has its tick delta
/// added; identities and positions are untouched.
pub open spec fn flocked(c: Config, s: Seq<Agent>) -> Seq<Agent> {
    Seq::new(
        s.len(),
        |k: int|
            Agent {
                id: s[k].id,
                position: s[k].position,
                velocity: Vec2 {
                    x: (s[k].velocity.x + steer_delta(c, s, s[k]).0) as i64,
                    y: (s[k].velocity.y + steer_delta(c, s, s[k]).1) as i64,
                },
            },
    )
}

/// The store after the integrator: every position advances by one tick of the
/// (already updated) velocity.
pub open spec fn integrated(s: Seq<Agent>) -> Seq<Agent> {
    Seq::new(
        s.len(),
        |k: int|
            Agent {
                id: s[k].id,
                position: Vec2 {
                    x: integrate_coord(s[k].position.x as int, s[k].velocity.x as int) as i64,
                    y: integrate_coord(s[k].position.y as int, s[k].velocity.y as int) as i64,
                },
                velocity: s[k].velocity,
            },
    )
}

/// The store after the boundary wrap against half-extents `(w, h)` with
/// margin `radius`.
pub open spec fn wrapped(s: Seq<Agent>, w: int, h: int, radius: int) -> Seq<Agent> {
    Seq::new(
        s.len(),
        |k: int|
            Agent {
                id: s[k].id,
                position: Vec2 {
                    x: wrap_coord(s[k].position.x as int, w, radius) as i64,
                    y: wrap_coord(s[k].position.y as int, h, radius) as i64,
                },
                velocity: s[k].velocity,
            },
    )
}

/// The whole pipeline of one fixed tick: steering pass over a frozen
/// snapshot, then integration, then boundary wrap.
pub open spec fn tick_spec(c: Config, s: Seq<Agent>, w: int, h: int) -> Seq<Agent> {
    wrapped(integrated(flocked(c, s)), w, h, c.agent_radius as int)
}

/// The inputs on which one tick is owed: a valid configuration and a store
/// and world extents within the fixed-point working range.
pub open spec fn tick_ok(c: Config, s: Seq<Agent>, w: int, h: int) -> bool {
    &&& c.valid()
    &&& s.len() <= MAX_POPULATION
    &&& all_bounded(s)
    &&& 0 <= w
    &&& 0 <= h
    &&& w + c.agent_radius <= MAX_COORD
    &&& h + c.agent_radius <= MAX_COORD
}

/// The simulation: a configuration fixed for the run and the authoritative
/// agent store. Presentation layers read positions and velocities only
/// between ticks, through the accessors.
pub struct Simulation {
    /// The run's tunable parameters.
    pub config: Config,
    /// The authoritative agent store.
    pub agents: Vec<Agent>,
}

impl Simulation {
    /// Builds a simulation around an existing store.
    pub fn new(config: Config, agents: Vec<Agent>) -> (r: Simulation)
        ensures
            r.config == config,
            r.agents == agents,
    {
        Simulation { config, agents }
    }

    /// Creates the initial population: `population_size` agents with distinct
    /// identities, each at a uniformly random position within the world
    /// rectangle, with each initial velocity component uniformly random
    /// within one world unit per second. An invalid configuration or world
    /// extents beyond the working range are rejected and the run does not
    /// start.
    pub fn init_random(config: Config, half_width: i64, half_height: i64) -> (r: Result<
        Simulation,
        ConfigError,
    >)
        ensures
            r is Ok <==> config.valid() && 0 <= half_width && 0 <= half_height && half_width
                + config.agent_radius <= MAX_COORD && half_height + config.agent_radius
                <= MAX_COORD,
            r is Ok ==> {
                let sim = r->Ok_0;
                &&& sim.config == config
                &&& sim.agents@.len() == config.population_size
                &&& forall|k: int|
                    0 <= k < sim.agents@.len() ==> {
                        &&& (#[trigger] sim.agents@[k]).id == k
                        &&& -half_width <= sim.agents@[k].position.x <= half_width
                        &&& -half_height <= sim.agents@[k].position.y <= half_height
                        &&& sim.agents@[k].velocity.within(SCALE as int)
                    }
            },
            r == Err::<Simulation, ConfigError>(ConfigError::NonPositiveRadius) <==> !config.radii_positive(),
            r == Err::<Simulation, ConfigError>(ConfigError::NonPositiveScalar) <==> config.radii_positive() && !config.scalars_positive(),
            r == Err::<Simulation, ConfigError>(ConfigError::LimitExceeded) <==> config.radii_positive() && config.scalars_positive() && !(config.within_limits() && 0 <= half_width && 0 <= half_height && half_width + config.agent_radius <= MAX_COORD && half_height + config.agent_radius <= MAX_COORD),
    {
        if !(config.neighbor_radius > 0 && config.separation_radius > 0) {
            return Err(ConfigError::NonPositiveRadius);
        }
        if !(config.speed > 0 && config.max_steer > 0 && config.agent_radius > 0
            && config.alignment_weight >= 0 && config.cohesion_weight >= 0
            && config.separation_weight >= 0 && config.population_size > 0) {
            return Err(ConfigError::NonPositiveScalar);
        }
        if !(config.is_valid() && 0 <= half_width && 0 <= half_height && half_width
            <= MAX_COORD - config.agent_radius && half_height <= MAX_COORD - config.agent_radius) {
            return Err(ConfigError::LimitExceeded);
        }
        let n: usize = config.population_size;
        let mut agents: Vec<Agent> = Vec::new();
        let mut i: usize = 0;
        while i < n
            invariant
                0 <= i <= n,
                0 <= half_width,
                0 <= half_height,
                agents@.len() == i as int,
                forall|k: int|
                    0 <= k < i ==> {
                        &&& (#[trigger] agents@[k]).id == k
                        &&& -half_width <= agents@[k].position.x <= half_width
                        &&& -half_height <= agents@[k].position.y <= half_height
                        &&& agents@[k].velocity.within(SCALE as int)
                    },
            decreases n - i,
        {
            let px: i64 = rand_range_i64(-half_width, half_width);
            let py: i64 = rand_range_i64(-half_height, half_height);
            let vx: i64 = rand_range_i64(-SCALE, SCALE);
            let vy: i64 = rand_range_i64(-SCALE, SCALE);
            let a: Agent = Agent {
                id: i as u64,
                position: Vec2 { x: px, y: py },
                velocity: Vec2 { x: vx, y: vy },
            };
            agents.push(a);
            i = i + 1;
        }
        Ok(Simulation { config, agents })
    }

    /// Number of agents in the store.
    pub fn agent_count(&self) -> (n: usize)
        ensures
            n == self.agents@.len(),
    {
        self.agents.len()
    }

    /// Read-only accessor: the position of the agent at index `i`.
    pub fn position_of(&self, i: usize) -> (p: Vec2)
        requires
            i < self.agents@.len(),
        ensures
            p == self.agents@[i as int].position,
    {
        self.agents[i].position
    }

    /// Read-only accessor: the velocity of the agent at index `i`.
    pub fn velocity_of(&self, i: usize) -> (v: Vec2)
        requires
            i < self.agents@.len(),
        ensures
            v == self.agents@[i as int].velocity,
    {
        self.agents[i].velocity
    }

    /// Runtime check for [`tick_ok`]: would one tick accept the current store
    /// and these world half-extents?
    pub fn within_limits(&self, half_width: i64, half_height: i64) -> (r: bool)
        ensures
            r == tick_ok(self.config, self.agents@, half_width as int, half_height as int),
    {
        if !self.config.is_valid() {
            return false;
        }
        if !(0 <= half_width && 0 <= half_height && half_width <= MAX_COORD - self.config.agent_radius
            && half_height <= MAX_COORD - self.config.agent_radius) {
            return false;
        }
        let n: usize = self.agents.len();
        if n > MAX_POPULATION {
            return false;
        }
        let mut k: usize = 0;
        while k < n
            invariant
                n == self.agents@.len(),
                0 <= k <= n,
                forall|m: int| 0 <= m < k ==> (#[trigger] self.agents@[m]).bounded(),
            decreases n - k,
        {
            let a: Agent = self.agents[k];
            if !(-MAX_COORD <= a.position.x && a.position.x <= MAX_COORD && -MAX_COORD
                <= a.position.y && a.position.y <= MAX_COORD && -MAX_COORD <= a.velocity.x
                && a.velocity.x <= MAX_COORD && -MAX_COORD <= a.velocity.y && a.velocity.y
                <= MAX_COORD) {
                proof {
                    assert(!self.agents@[k as int].bounded());
                }
                return false;
            }
            k = k + 1;
        }
        true
    }

    /// Advances the simulation by exactly one fixed tick: neighbor scan and
    /// steering pass over a frozen snapshot, then integration, then boundary
    /// wrap, all completed before the call returns. The world half-extents
    /// are supplied by the caller and only feed the boundary wrap.
    ///
    /// Returns `true` and leaves exactly [`tick_spec`] in the store whenever
    /// the inputs are within the fixed-point working range ([`tick_ok`]);
    /// otherwise returns `false` and leaves the store untouched.
    pub fn tick(&mut self, half_width: i64, half_height: i64) -> (r: bool)
        ensures
            r == tick_ok(
                old(self).config,
                old(self).agents@,
                half_width as int,
                half_height as int,
            ),
            final(self).config == old(self).config,
            r ==> final(self).agents@ == tick_spec(
                old(self).config,
                old(self).agents@,
                half_width as int,
                half_height as int,
            ),
            !r ==> final(self).agents@ == old(self).agents@,
    {
        if !self.within_limits(half_width, half_height) {
            return false;
        }
        let ghost s0: Seq<Agent> = self.agents@;
        let c: Config = self.config;
        flock(&c, &mut self.agents);
        proof {
            assert forall|k: int| 0 <= k < s0.len() implies {
                &&& (#[trigger] self.agents@[k]) == flocked(c, s0)[k]
                &&& self.agents@[k].position.within(MAX_COORD as int)
                &&& self.agents@[k].velocity.within(MAX_STEP_VEL as int)
            } by {
                lemma_steer_delta_bound(c, s0, s0[k]);
                assert(s0[k].bounded());
            }
            assert(self.agents@ =~= flocked(c, s0));
        }
        let ghost s1: Seq<Agent> = self.agents@;
        integrate(&mut self.agents);
        proof {
            assert forall|k: int| 0 <= k < s1.len() implies (#[trigger] self.agents@[k])
                == integrated(s1)[k] by {
                lemma_div_trunc_bound(
                    s1[k].velocity.x as int,
                    TICKS_PER_SECOND as int,
                    MAX_STEP_VEL as int,
                );
                lemma_div_trunc_bound(
                    s1[k].velocity.y as int,
                    TICKS_PER_SECOND as int,
                    MAX_STEP_VEL as int,
                );
            }
            assert(self.agents@ =~= integrated(s1));
        }
        let ghost s2: Seq<Agent> = self.agents@;
        wrap(&mut self.agents, half_width, half_height, c.agent_radius);
        proof {
            assert forall|k: int| 0 <= k < s2.len() implies (#[trigger] self.agents@[k]) == wrapped(
                s2,
                half_width as int,
                half_height as int,
                c.agent_radius as int,
            )[k] by {}
            assert(self.agents@ =~= wrapped(
                s2,
                half_width as int,
                half_height as int,
                c.agent_radius as int,
            ));
        }
        true
    }
}

/// Determinism of the tick: the next store is a mathematical function of the
/// snapshot, the configuration and the world extents alone, so two runs over
/// identical inputs end in identical stores, however the per-agent work is
/// scheduled inside a tick.
pub proof fn lemma_tick_deterministic(
    c1: Config,
    s1: Seq<Agent>,
    w1: int,
    h1: int,
    c2: Config,
    s2: Seq<Agent>,
    w2: int,
    h2: int,
)
    requires
        c1 == c2,
        s1 == s2,
        w1 == w2,
        h1 == h2,
    ensures
        tick_spec(c1, s1, w1, h1) == tick_spec(c2, s2, w2, h2),
{
}

/// Isolation at the tick level: an agent with no other agent within
/// `neighbor_radius` or `separation_radius` leaves one tick with its velocity
/// unchanged, while its position still advances by one tick of that velocity
/// and wraps at the world boundary.
pub proof fn lemma_isolation_tick(c: Config, s: Seq<Agent>, w: int, h: int, k: int)
    requires
        tick_ok(c, s, w, h),
        0 <= k < s.len(),
        forall|j: int|
            0 <= j < s.len() ==> !within_range(s[k], #[trigger] s[j], c.neighbor_radius as int)
                && !within_range(s[k], s[j], c.separation_radius as int),
    ensures
        tick_spec(c, s, w, h)[k].velocity == s[k].velocity,
        tick_spec(c, s, w, h)[k].position.x as int == wrap_coord(
            integrate_coord(s[k].position.x as int, s[k].velocity.x as int),
            w,
            c.agent_radius as int,
        ),
        tick_spec(c, s, w, h)[k].position.y as int == wrap_coord(
            integrate_coord(s[k].position.y as int, s[k].velocity.y as int),
            h,
            c.agent_radius as int,
        ),
{
    lemma_isolation(c, s, s[k]);
    assert(s[k].bounded());
    let f = flocked(c, s);
    assert(f[k].velocity.x as int == s[k].velocity.x + 0 && f[k].velocity.y as int == s[
        k
    ].velocity.y + 0);
    assert(f[k].velocity == s[k].velocity);
    let g = integrated(f);
    lemma_div_trunc_bound(f[k].velocity.x as int, TICKS_PER_SECOND as int, MAX_COORD as int);
    lemma_div_trunc_bound(f[k].velocity.y as int, TICKS_PER_SECOND as int, MAX_COORD as int);
    assert(g[k].position.x as int == integrate_coord(s[k].position.x as int, s[k].velocity.x as int));
    assert(g[k].position.y as int == integrate_coord(s[k].position.y as int, s[k].velocity.y as int));
    assert(g[k].velocity == s[k].velocity);
}

/// Totality and boundedness of the tick: on any accepted input — including
/// populations with coinciding agents, where every guarded normalization
/// short-circuits to zero — the tick is defined for every agent, keeps every
/// position within the wrap margin, and grows no velocity component by more
/// than three weighted steering caps. The fixed-point model has no
/// not-a-number or infinite values that could enter the store.
pub proof fn lemma_tick_bounded(c: Config, s: Seq<Agent>, w: int, h: int)
    requires
        tick_ok(c, s, w, h),
    ensures
        tick_spec(c, s, w, h).len() == s.len(),
        forall|k: int|
            0 <= k < s.len() ==> {
                &&& -(w + c.agent_radius) <= (#[trigger] tick_spec(c, s, w, h)[k]).position.x
                    <= w + c.agent_radius
                &&& -(h + c.agent_radius) <= tick_spec(c, s, w, h)[k].position.y <= h
                    + c.agent_radius
                &&& tick_spec(c, s, w, h)[k].velocity.within(MAX_COORD as int + 3 * MAX_CONTRIB as int)
                &&& tick_spec(c, s, w, h)[k].id == s[k].id
            },
{
    let f = flocked(c, s);
    let g = integrated(f);
    assert forall|k: int| 0 <= k < s.len() implies {
        &&& -(w + c.agent_radius) <= (#[trigger] tick_spec(c, s, w, h)[k]).position.x <= w
            + c.agent_radius
        &&& -(h + c.agent_radius) <= tick_spec(c, s, w, h)[k].position.y <= h + c.agent_radius
        &&& tick_spec(c, s, w, h)[k].velocity.within(MAX_COORD as int + 3 * MAX_CONTRIB as int)
        &&& tick_spec(c, s, w, h)[k].id == s[k].id
    } by {
        lemma_steer_delta_bound(c, s, s[k]);
        assert(s[k].bounded());
        let dx: int = steer_delta(c, s, s[k]).0;
        let dy: int = steer_delta(c, s, s[k]).1;
        assert(f[k].velocity.x as int == s[k].velocity.x + dx);
        assert(f[k].velocity.y as int == s[k].velocity.y + dy);
        assert(f[k].position == s[k].position && f[k].id == s[k].id);
        assert(f[k].velocity.within(MAX_COORD as int + 3 * MAX_CONTRIB as int));
        lemma_div_trunc_bound(f[k].velocity.x as int, TICKS_PER_SECOND as int, MAX_STEP_VEL as int);
        lemma_div_trunc_bound(f[k].velocity.y as int, TICKS_PER_SECOND as int, MAX_STEP_VEL as int);
        assert(g[k].position.x as int == integrate_coord(
            f[k].position.x as int,
            f[k].velocity.x as int,
        ));
        assert(g[k].position.y as int == integrate_coord(
            f[k].position.y as int,
            f[k].velocity.y as int,
        ));
        assert(g[k].velocity == f[k].velocity && g[k].id == f[k].id);
        assert(tick_spec(c, s, w, h)[k].position.x as int == wrap_coord(
            g[k].position.x as int,
            w,
            c.agent_radius as int,
        ));
        assert(tick_spec(c, s, w, h)[k].position.y as int == wrap_coord(
            g[k].position.y as int,
            h,
            c.agent_radius as int,
        ));
        assert(tick_spec(c, s, w, h)[k].velocity == g[k].velocity && tick_spec(c, s, w, h)[k].id
            == g[k].id);
        assert(-(w + c.agent_radius) <= wrap_coord(g[k].position.x as int, w, c.agent_radius as int)
            <= w + c.agent_radius);
        assert(-(h + c.agent_radius) <= wrap_coord(g[k].position.y as int, h, c.agent_radius as int)
            <= h + c.agent_radius);
        assert(tick_spec(c, s, w, h)[k].velocity.within(MAX_COORD as int + 3 * MAX_CONTRIB as int));
        assert(tick_spec(c, s, w, h)[k].id == s[k].id);
    }
}

} // verus!
