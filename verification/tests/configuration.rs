use boids::config::{scalar_within_limit, Config, ConfigError, MAX_EXTENT};
use boids::fixed::{LIMIT, ONE};
use boids::flock::Flock;
use boids::simulation::Simulation;
use boids::vector::Vec2;

fn sample() -> Config {
    Config {
        population: 250,
        width: 640,
        height: 480,
        neighbor_radius: 25 * ONE,
        protected_radius: 5 * ONE,
        separation_weight: 10 * ONE,
        alignment_weight: 98304,
        cohesion_weight: 255590,
        goal_weight: 124518,
        speed: 170 * ONE,
        goal: Vec2::new(320 * ONE, 240 * ONE),
        tick_nanos: 16_666_667,
    }
}

#[test]
fn a_sound_configuration_passes() {
    assert_eq!(sample().check(), Ok(()));
}

#[test]
fn equal_radii_pass() {
    let mut c = sample();
    c.protected_radius = c.neighbor_radius;
    assert_eq!(c.check(), Ok(()));
    c.protected_radius = 0;
    c.neighbor_radius = 0;
    assert_eq!(c.check(), Ok(()));
}

#[test]
fn an_empty_flock_passes() {
    let mut c = sample();
    c.population = 0;
    assert_eq!(c.check(), Ok(()));
}

#[test]
fn protected_radius_above_neighbor_radius_is_refused() {
    let mut c = sample();
    c.protected_radius = c.neighbor_radius + 1;
    assert_eq!(c.check(), Err(ConfigError::ProtectedExceedsNeighbor));
}

#[test]
fn negative_radii_are_refused() {
    let mut c = sample();
    c.protected_radius = -1;
    assert_eq!(c.check(), Err(ConfigError::NegativeRadius));
    let mut c = sample();
    c.neighbor_radius = -1;
    assert_eq!(c.check(), Err(ConfigError::NegativeRadius));
}

#[test]
fn bounds_without_room_are_refused() {
    for (width, height) in [(1, 480), (640, 1), (0, 0), (-5, 480), (MAX_EXTENT + 1, 480), (640, i32::MAX)] {
        let mut c = sample();
        c.width = width;
        c.height = height;
        assert_eq!(c.check(), Err(ConfigError::BadBounds));
    }
    let mut c = sample();
    c.width = 2;
    c.height = MAX_EXTENT;
    assert_eq!(c.check(), Ok(()));
}

#[test]
fn scalars_beyond_the_limit_are_refused() {
    let mut c = sample();
    c.separation_weight = LIMIT + 1;
    assert_eq!(c.check(), Err(ConfigError::OutOfRange));
    let mut c = sample();
    c.alignment_weight = -LIMIT - 1;
    assert_eq!(c.check(), Err(ConfigError::OutOfRange));
    let mut c = sample();
    c.cohesion_weight = i64::MAX;
    assert_eq!(c.check(), Err(ConfigError::OutOfRange));
    let mut c = sample();
    c.goal_weight = i64::MIN;
    assert_eq!(c.check(), Err(ConfigError::OutOfRange));
    let mut c = sample();
    c.speed = LIMIT + 1;
    assert_eq!(c.check(), Err(ConfigError::OutOfRange));
    let mut c = sample();
    c.goal = Vec2::new(LIMIT + 1, 0);
    assert_eq!(c.check(), Err(ConfigError::OutOfRange));
    let mut c = sample();
    c.goal = Vec2::new(0, -LIMIT - 1);
    assert_eq!(c.check(), Err(ConfigError::OutOfRange));
}

#[test]
fn scalars_at_the_limit_pass() {
    let mut c = sample();
    c.separation_weight = LIMIT;
    c.alignment_weight = -LIMIT;
    c.cohesion_weight = 0;
    c.goal_weight = -1;
    c.speed = LIMIT;
    c.goal = Vec2::new(-LIMIT, LIMIT);
    assert_eq!(c.check(), Ok(()));
}

#[test]
fn a_tick_of_no_length_is_refused() {
    let mut c = sample();
    c.tick_nanos = 0;
    assert_eq!(c.check(), Err(ConfigError::ZeroTick));
    c.tick_nanos = 1;
    assert_eq!(c.check(), Ok(()));
    c.tick_nanos = u64::MAX;
    assert_eq!(c.check(), Ok(()));
}

#[test]
fn the_first_fault_is_named() {
    let mut c = sample();
    c.tick_nanos = 0;
    c.speed = LIMIT + 1;
    assert_eq!(c.check(), Err(ConfigError::OutOfRange));
    c.protected_radius = c.neighbor_radius + 1;
    assert_eq!(c.check(), Err(ConfigError::ProtectedExceedsNeighbor));
    c.neighbor_radius = -1;
    assert_eq!(c.check(), Err(ConfigError::NegativeRadius));
    c.width = 1;
    assert_eq!(c.check(), Err(ConfigError::BadBounds));
}

#[test]
fn scalar_within_limit_is_inclusive() {
    assert!(scalar_within_limit(0));
    assert!(scalar_within_limit(LIMIT));
    assert!(scalar_within_limit(-LIMIT));
    assert!(!scalar_within_limit(LIMIT + 1));
    assert!(!scalar_within_limit(-LIMIT - 1));
}

#[test]
fn a_simulation_is_refused_with_the_fault_of_its_configuration() {
    let mut c = sample();
    c.protected_radius = c.neighbor_radius + 1;
    let flock = Flock::from_boids(Vec::new()).unwrap();
    assert!(matches!(Simulation::new(flock, c), Err(ConfigError::ProtectedExceedsNeighbor)));
    let mut c = sample();
    c.tick_nanos = 0;
    let flock = Flock::from_boids(Vec::new()).unwrap();
    assert!(matches!(Simulation::new(flock, c), Err(ConfigError::ZeroTick)));
    let flock = Flock::from_boids(Vec::new()).unwrap();
    assert!(Simulation::new(flock, sample()).is_ok());
}
