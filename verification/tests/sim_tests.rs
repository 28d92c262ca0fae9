use boids::agent::Agent;
use boids::config::Config;
use boids::config::ConfigError;
use boids::motion::wrap;
use boids::sim::Simulation;
use boids::steer::flock;
use boids::vec2::Vec2;

// All scalar values are fixed-point sub-units: 1000 per world unit.

fn agent(id: u64, px: i64, py: i64, vx: i64, vy: i64) -> Agent {
    Agent { id, position: Vec2 { x: px, y: py }, velocity: Vec2 { x: vx, y: vy } }
}

fn base_config() -> Config {
    // The reference parameters: weights 1.0 / 1.0 / 1.5, speed 100, steer 2,
    // agent radius 32, neighbor radius 90, separation radius 50.
    Config {
        alignment_weight: 1_000,
        cohesion_weight: 1_000,
        separation_weight: 1_500,
        speed: 100_000,
        max_steer: 2_000,
        agent_radius: 32_000,
        neighbor_radius: 90_000,
        separation_radius: 50_000,
        population_size: 500,
    }
}

#[test]
fn config_accepts_reference_parameters() {
    let r = Config::new(1_000, 1_000, 1_500, 100_000, 2_000, 32_000, 90_000, 50_000, 500);
    let c = r.expect("the reference configuration must be accepted");
    assert_eq!(c.separation_weight, 1_500);
    assert_eq!(c.population_size, 500);
}

#[test]
fn config_rejects_nonpositive_radius() {
    let r = Config::new(1_000, 1_000, 1_500, 100_000, 2_000, 32_000, 0, 50_000, 500);
    assert_eq!(r, Err(ConfigError::NonPositiveRadius));
    let r = Config::new(1_000, 1_000, 1_500, 100_000, 2_000, 32_000, 90_000, -5, 500);
    assert_eq!(r, Err(ConfigError::NonPositiveRadius));
}

#[test]
fn config_rejects_nonpositive_scalars() {
    let r = Config::new(1_000, 1_000, 1_500, 0, 2_000, 32_000, 90_000, 50_000, 500);
    assert_eq!(r, Err(ConfigError::NonPositiveScalar));
    let r = Config::new(-1, 1_000, 1_500, 100_000, 2_000, 32_000, 90_000, 50_000, 500);
    assert_eq!(r, Err(ConfigError::NonPositiveScalar));
    let r = Config::new(1_000, 1_000, 1_500, 100_000, 2_000, 32_000, 90_000, 50_000, 0);
    assert_eq!(r, Err(ConfigError::NonPositiveScalar));
}

#[test]
fn config_rejects_oversized_parameters() {
    let r = Config::new(1_000, 1_000, 1_500, 2_000_000_000, 2_000, 32_000, 90_000, 50_000, 500);
    assert_eq!(r, Err(ConfigError::LimitExceeded));
}

#[test]
fn separation_scenario_exact_values() {
    // speed=100, max_steer=2, separation_radius=50, separation_weight=1.5;
    // A at (0,0) and B at (40,0), both at rest, distance 40 < 50. The
    // separation contribution alone must leave A at (-3, 0) and B at (3, 0).
    let mut c = base_config();
    c.cohesion_weight = 0;
    c.alignment_weight = 0;
    let mut agents = vec![agent(0, 0, 0, 0, 0), agent(1, 40_000, 0, 0, 0)];
    flock(&c, &mut agents);
    assert_eq!(agents[0].velocity, Vec2 { x: -3_000, y: 0 });
    assert_eq!(agents[1].velocity, Vec2 { x: 3_000, y: 0 });
    assert_eq!(agents[0].position, Vec2 { x: 0, y: 0 });
    assert_eq!(agents[1].position, Vec2 { x: 40_000, y: 0 });
}

#[test]
fn separation_contributions_are_antiparallel() {
    // Agents off-axis and at rest: the two separation deltas negate exactly.
    let mut c = base_config();
    c.cohesion_weight = 0;
    c.alignment_weight = 0;
    let mut agents = vec![agent(0, 1_000, 2_000, 0, 0), agent(1, 25_000, -7_000, 0, 0)];
    flock(&c, &mut agents);
    assert_eq!(agents[0].velocity.x, -agents[1].velocity.x);
    assert_eq!(agents[0].velocity.y, -agents[1].velocity.y);
    // A sits left of and above B, so A is pushed further left and up.
    assert!(agents[0].velocity.x < 0);
    assert!(agents[0].velocity.y > 0);
}

#[test]
fn cohesion_scenario_exact_values() {
    // Cohesion alone, same geometry: the steering target is the neighbor's
    // position, rescaled to speed and capped at max_steer = 2.
    let mut c = base_config();
    c.separation_weight = 0;
    c.alignment_weight = 0;
    let mut agents = vec![agent(0, 0, 0, 0, 0), agent(1, 40_000, 0, 0, 0)];
    flock(&c, &mut agents);
    assert_eq!(agents[0].velocity, Vec2 { x: 2_000, y: 0 });
    assert_eq!(agents[1].velocity, Vec2 { x: -2_000, y: 0 });
}

#[test]
fn alignment_scenario_exact_values() {
    // Alignment alone: A aligns toward B's velocity direction, capped at
    // max_steer; B sees a zero average velocity and is left unchanged.
    let mut c = base_config();
    c.separation_weight = 0;
    c.cohesion_weight = 0;
    let mut agents = vec![agent(0, 0, 0, 0, 0), agent(1, 40_000, 0, 500, 0)];
    flock(&c, &mut agents);
    assert_eq!(agents[0].velocity, Vec2 { x: 2_000, y: 0 });
    assert_eq!(agents[1].velocity, Vec2 { x: 500, y: 0 });
}

#[test]
fn combined_rules_sum_without_cap() {
    // All three rules on the reference weights, two agents at rest 40 apart:
    // cohesion pulls with +2 (weight 1.0), alignment sees a zero average and
    // contributes nothing, separation pushes with -3 (weight 1.5). The sum,
    // -1, is applied uncapped; one tick then advances A by -1/60 of a unit.
    let c = base_config();
    let agents = vec![agent(0, 0, 0, 0, 0), agent(1, 40_000, 0, 0, 0)];
    let mut sim = Simulation::new(c, agents);
    assert!(sim.tick(800_000, 450_000));
    assert_eq!(sim.velocity_of(0), Vec2 { x: -1_000, y: 0 });
    assert_eq!(sim.velocity_of(1), Vec2 { x: 1_000, y: 0 });
    assert_eq!(sim.position_of(0), Vec2 { x: -16, y: 0 });
    assert_eq!(sim.position_of(1), Vec2 { x: 40_016, y: 0 });
}

#[test]
fn isolated_agent_keeps_velocity_and_advances() {
    // 200 world units apart: outside both radii. One tick leaves velocities
    // untouched and advances positions by velocity / 60, truncated toward 0.
    let c = base_config();
    let agents = vec![agent(0, 0, 0, 5_000, -3_000), agent(1, 200_000, 0, 0, 0)];
    let mut sim = Simulation::new(c, agents);
    let ran = sim.tick(800_000, 450_000);
    assert!(ran);
    assert_eq!(sim.velocity_of(0), Vec2 { x: 5_000, y: -3_000 });
    assert_eq!(sim.position_of(0), Vec2 { x: 83, y: -50 });
    assert_eq!(sim.velocity_of(1), Vec2 { x: 0, y: 0 });
    assert_eq!(sim.position_of(1), Vec2 { x: 200_000, y: 0 });
}

#[test]
fn coinciding_agents_stay_finite() {
    // Two agents at the same position, distance zero: every normalization is
    // guarded, the tick runs, and nothing degenerate enters the store.
    let c = base_config();
    let agents = vec![agent(0, 10_000, 20_000, 0, 0), agent(1, 10_000, 20_000, 0, 0)];
    let mut sim = Simulation::new(c, agents);
    let ran = sim.tick(800_000, 450_000);
    assert!(ran);
    assert_eq!(sim.velocity_of(0), Vec2 { x: 0, y: 0 });
    assert_eq!(sim.velocity_of(1), Vec2 { x: 0, y: 0 });
    assert_eq!(sim.position_of(0), Vec2 { x: 10_000, y: 20_000 });
    assert_eq!(sim.position_of(1), Vec2 { x: 10_000, y: 20_000 });
}

#[test]
fn tick_is_deterministic() {
    let c = base_config();
    let agents = vec![
        agent(0, 0, 0, 1_000, 2_000),
        agent(1, 30_000, 10_000, -500, 700),
        agent(2, -20_000, 45_000, 0, -900),
        agent(3, 10_000, 10_000, 250, 250),
    ];
    let mut sim_a = Simulation::new(c, agents.clone());
    let mut sim_b = Simulation::new(c, agents);
    assert!(sim_a.tick(800_000, 450_000));
    assert!(sim_b.tick(800_000, 450_000));
    assert_eq!(sim_a.agents, sim_b.agents);
}

#[test]
fn wrap_round_trip_east_edge() {
    // position.x = W + agent_radius + 1 sub-unit: teleported to the west
    // edge, y and velocity untouched.
    let w: i64 = 800_000;
    let h: i64 = 450_000;
    let radius: i64 = 32_000;
    let mut agents = vec![agent(0, w + radius + 1, 12_345, 4_000, -6_000)];
    wrap(&mut agents, w, h, radius);
    assert_eq!(agents[0].position, Vec2 { x: -w - radius, y: 12_345 });
    assert_eq!(agents[0].velocity, Vec2 { x: 4_000, y: -6_000 });
}

#[test]
fn wrap_leaves_inside_agents_alone() {
    let mut agents = vec![agent(0, 800_000, 12_345, 1, 2)];
    wrap(&mut agents, 800_000, 450_000, 32_000);
    assert_eq!(agents[0].position, Vec2 { x: 800_000, y: 12_345 });
}

#[test]
fn wrap_diagonal_exit_wraps_both_axes() {
    let w: i64 = 800_000;
    let h: i64 = 450_000;
    let radius: i64 = 32_000;
    let mut agents = vec![agent(0, w + radius + 5, -h - radius - 5, 0, 0)];
    wrap(&mut agents, w, h, radius);
    assert_eq!(agents[0].position, Vec2 { x: -w - radius, y: h + radius });
}

#[test]
fn init_random_populates_within_bounds() {
    let c = Config::new(1_000, 1_000, 1_500, 100_000, 2_000, 32_000, 90_000, 50_000, 64)
        .expect("valid configuration");
    let sim = Simulation::init_random(c, 800_000, 450_000).expect("initialization must succeed");
    assert_eq!(sim.agent_count(), 64);
    for (k, a) in sim.agents.iter().enumerate() {
        assert_eq!(a.id, k as u64);
        assert!(a.position.x >= -800_000 && a.position.x <= 800_000);
        assert!(a.position.y >= -450_000 && a.position.y <= 450_000);
        assert!(a.velocity.x >= -1_000 && a.velocity.x <= 1_000);
        assert!(a.velocity.y >= -1_000 && a.velocity.y <= 1_000);
    }
}

#[test]
fn init_random_rejects_bad_radius() {
    let mut c = base_config();
    c.neighbor_radius = 0;
    let r = Simulation::init_random(c, 800_000, 450_000);
    assert!(matches!(r, Err(ConfigError::NonPositiveRadius)));
}

#[test]
fn init_random_rejects_oversized_world() {
    let c = base_config();
    let r = Simulation::init_random(c, 1_000_000_000, 450_000);
    assert!(matches!(r, Err(ConfigError::LimitExceeded)));
}

#[test]
fn empty_population_tick_is_a_no_op() {
    // An empty store is valid but degenerate: the tick runs and does nothing.
    let c = base_config();
    let mut sim = Simulation::new(c, Vec::new());
    assert!(sim.tick(800_000, 450_000));
    assert_eq!(sim.agent_count(), 0);
}

#[test]
fn tick_refuses_invalid_configuration() {
    let mut c = base_config();
    c.speed = 0;
    let agents = vec![agent(0, 0, 0, 0, 0)];
    let mut sim = Simulation::new(c, agents.clone());
    let ran = sim.tick(800_000, 450_000);
    assert!(!ran);
    assert_eq!(sim.agents, agents);
}

#[test]
fn many_ticks_keep_positions_inside_wrap_margin() {
    let c = base_config();
    let sim = Simulation::init_random(c, 800_000, 450_000).expect("initialization");
    let mut sim = sim;
    for _ in 0..30 {
        assert!(sim.tick(800_000, 450_000));
    }
    for a in sim.agents.iter() {
        assert!(a.position.x.abs() <= 832_000);
        assert!(a.position.y.abs() <= 482_000);
    }
}
