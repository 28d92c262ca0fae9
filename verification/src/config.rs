//! Tunable simulation parameters, fixed for the lifetime of a run.

use vstd::prelude::*;

verus! {

/// Largest position or velocity component (in fixed-point sub-units) the
/// simulation arithmetic accepts without risking overflow.
pub const MAX_COORD: i64 = 1_000_000_000;

/// Largest value accepted for `speed`, `max_steer` and the radii.
pub const MAX_PARAM: i64 = 1_000_000_000;

/// Largest value accepted for a steering weight.
pub const MAX_WEIGHT: i64 = 1_000_000;

/// Largest population the simulation accepts.
pub const MAX_POPULATION: usize = 1_000_000;

/// Largest magnitude a single weighted steering contribution can have:
/// `MAX_PARAM * MAX_WEIGHT / SCALE`.
pub const MAX_CONTRIB: i64 = 1_000_000_000_000;

/// Why a configuration was rejected at initialization.
#[derive(Clone, Copy, PartialEq, Eq, Structural, Debug)]
pub enum ConfigError {
    /// `neighbor_radius` or `separation_radius` is zero or negative.
    NonPositiveRadius,
    /// `speed`, `max_steer` or `agent_radius` is zero or negative, a weight is
    /// negative, or the population is empty.
    NonPositiveScalar,
    /// A parameter or a world half-extent exceeds the fixed-point limits.
    LimitExceeded,
}

/// The tunable parameters of a run. All scalar fields are fixed-point
/// sub-units ([`crate::fixed::SCALE`] per world unit).
#[derive(Clone, Copy, PartialEq, Eq, Structural, Debug)]
pub struct Config {
    /// Weight of the alignment steering rule.
    pub alignment_weight: i64,
    /// Weight of the cohesion steering rule.
    pub cohesion_weight: i64,
    /// Weight of the separation steering rule.
    pub separation_weight: i64,
    /// Desired cruising speed, used to rescale steering targets.
    pub speed: i64,
    /// Per-rule cap on the magnitude of a steering force.
    pub max_steer: i64,
    /// Agent radius, the margin used by the boundary wrap.
    pub agent_radius: i64,
    /// Sensing distance for cohesion and alignment.
    pub neighbor_radius: i64,
    /// Close-range repulsion distance.
    pub separation_radius: i64,
    /// Number of agents created at simulation start.
    pub population_size: usize,
}

impl Config {
    /// Both sensing radii are strictly positive.
    pub open spec fn radii_positive(self) -> bool {
        self.neighbor_radius > 0 && self.separation_radius > 0
    }

    /// The remaining scalar parameters have the signs the model requires.
    pub open spec fn scalars_positive(self) -> bool {
        &&& self.speed > 0
        &&& self.max_steer > 0
        &&& self.agent_radius > 0
        &&& self.alignment_weight >= 0
        &&& self.cohesion_weight >= 0
        &&& self.separation_weight >= 0
        &&& self.population_size > 0
    }

    /// Every parameter is small enough for the fixed-point arithmetic.
    pub open spec fn within_limits(self) -> bool {
        &&& self.speed <= MAX_PARAM
        &&& self.max_steer <= MAX_PARAM
        &&& self.agent_radius <= MAX_PARAM
        &&& self.neighbor_radius <= MAX_PARAM
        &&& self.separation_radius <= MAX_PARAM
        &&& self.alignment_weight <= MAX_WEIGHT
        &&& self.cohesion_weight <= MAX_WEIGHT
        &&& self.separation_weight <= MAX_WEIGHT
        &&& self.population_size <= MAX_POPULATION
    }

    /// A configuration the simulation accepts.
    pub open spec fn valid(self) -> bool {
        self.radii_positive() && self.scalars_positive() && self.within_limits()
    }

    /// Runtime check for [`Config::valid`].
    pub fn is_valid(&self) -> (r: bool)
        ensures
            r == self.valid(),
    {
        self.neighbor_radius > 0 && self.separation_radius > 0 && self.speed > 0
            && self.max_steer > 0 && self.agent_radius > 0 && self.alignment_weight >= 0
            && self.cohesion_weight >= 0 && self.separation_weight >= 0
            && self.population_size > 0 && self.speed <= MAX_PARAM && self.max_steer <= MAX_PARAM
            && self.agent_radius <= MAX_PARAM && self.neighbor_radius <= MAX_PARAM
            && self.separation_radius <= MAX_PARAM && self.alignment_weight <= MAX_WEIGHT
            && self.cohesion_weight <= MAX_WEIGHT && self.separation_weight <= MAX_WEIGHT
            && self.population_size <= MAX_POPULATION
    }

    /// Builds a configuration, rejecting one the simulation cannot run.
    ///
    /// A non-positive sensing radius, a non-positive scalar, and a parameter
    /// beyond the fixed-point limits are each reported, in that order.
    #[allow(clippy::too_many_arguments)]
    pub fn new(
        alignment_weight: i64,
        cohesion_weight: i64,
        separation_weight: i64,
        speed: i64,
        max_steer: i64,
        agent_radius: i64,
        neighbor_radius: i64,
        separation_radius: i64,
        population_size: usize,
    ) -> (r: Result<Config, ConfigError>)
        ensures
            ({
                let c = Config {
                    alignment_weight,
                    cohesion_weight,
                    separation_weight,
                    speed,
                    max_steer,
                    agent_radius,
                    neighbor_radius,
                    separation_radius,
                    population_size,
                };
                &&& (r is Ok <==> c.valid())
                &&& (r is Ok ==> r->Ok_0 == c)
                &&& (r == Err::<Config, ConfigError>(ConfigError::NonPositiveRadius) <==> !c.radii_positive())
                &&& (r == Err::<Config, ConfigError>(ConfigError::NonPositiveScalar) <==> c.radii_positive()
                    && !c.scalars_positive())
                &&& (r == Err::<Config, ConfigError>(ConfigError::LimitExceeded) <==> c.radii_positive()
                    && c.scalars_positive() && !c.within_limits())
            }),
    {
        let c = Config {
            alignment_weight,
            cohesion_weight,
            separation_weight,
            speed,
            max_steer,
            agent_radius,
            neighbor_radius,
            separation_radius,
            population_size,
        };
        if !(c.neighbor_radius > 0 && c.separation_radius > 0) {
            Err(ConfigError::NonPositiveRadius)
        } else if !(c.speed > 0 && c.max_steer > 0 && c.agent_radius > 0 && c.alignment_weight >= 0
            && c.cohesion_weight >= 0 && c.separation_weight >= 0 && c.population_size > 0) {
            Err(ConfigError::NonPositiveScalar)
        } else if !(c.speed <= MAX_PARAM && c.max_steer <= MAX_PARAM && c.agent_radius <= MAX_PARAM
            && c.neighbor_radius <= MAX_PARAM && c.separation_radius <= MAX_PARAM
            && c.alignment_weight <= MAX_WEIGHT && c.cohesion_weight <= MAX_WEIGHT
            && c.separation_weight <= MAX_WEIGHT && c.population_size <= MAX_POPULATION) {
            Err(ConfigError::LimitExceeded)
        } else {
            Ok(c)
        }
    }
}

} // verus!
