use boids::config::Config;
use boids::fixed::ONE;
use boids::flock::{Boid, Flock};
use boids::neighbors::find_neighbors;
use boids::steering::{
    alignment, centroid_of, cohesion, goal_seeking, mean_heading_of, separation, steer,
    weigh_direction,
};
use boids::vector::Vec2;

fn config() -> Config {
    Config {
        population: 5,
        width: 640,
        height: 480,
        neighbor_radius: 25 * ONE,
        protected_radius: 5 * ONE,
        separation_weight: 10 * ONE,
        alignment_weight: 98304,
        cohesion_weight: 255590,
        goal_weight: 124518,
        speed: 170 * ONE,
        goal: Vec2::new(320 * ONE, 240 * ONE),
        tick_nanos: 16_666_667,
    }
}

fn flock() -> Flock {
    let at = |x: i64, y: i64, hx: i64, hy: i64| Boid {
        position: Vec2::new(x * ONE, y * ONE),
        heading: Vec2::new(hx, hy),
    };
    Flock::from_boids(vec![
        at(100, 100, ONE, 0),
        at(103, 104, 39321, 52428),
        at(110, 100, 0, ONE),
        at(100, 97, -25206, 60494),
        at(400, 400, 0, -ONE),
    ])
    .unwrap()
}

#[test]
fn weigh_direction_scales_the_unit_vector() {
    assert_eq!(weigh_direction(Vec2::new(3 * ONE, 4 * ONE), 10 * ONE), Vec2::new(393210, 524280));
    assert_eq!(weigh_direction(Vec2::new(3 * ONE, 4 * ONE), -ONE), Vec2::new(-39321, -52428));
    assert_eq!(weigh_direction(Vec2::new(3 * ONE, 4 * ONE), 0), Vec2::zero());
    assert_eq!(weigh_direction(Vec2::new(0, -5), 7 * ONE), Vec2::zero());
    assert_eq!(weigh_direction(Vec2::zero(), 7 * ONE), Vec2::zero());
}

#[test]
fn the_centroid_counts_the_boid_itself() {
    let f = flock();
    assert_eq!(centroid_of(&f, 0, &vec![1, 2, 3]), Vec2::new(6766592, 6569984));
    assert_eq!(centroid_of(&f, 0, &Vec::new()), Vec2::new(100 * ONE, 100 * ONE));
    assert_eq!(centroid_of(&f, 4, &vec![0]), Vec2::new(250 * ONE, 250 * ONE));
}

#[test]
fn the_mean_heading_counts_the_boid_itself() {
    let f = flock();
    assert_eq!(mean_heading_of(&f, 0, &vec![1, 2, 3]), Vec2::new(19912, 44614));
    assert_eq!(mean_heading_of(&f, 2, &Vec::new()), Vec2::new(0, ONE));
    assert_eq!(mean_heading_of(&f, 2, &vec![4]), Vec2::zero());
}

#[test]
fn cohesion_pulls_toward_the_centroid() {
    let f = flock();
    let c = config();
    let expected = [(254833, 19601), (17000, -255020), (-255414, 9457), (180725, 180725), (0, 0)];
    for (i, &(x, y)) in expected.iter().enumerate() {
        let near = find_neighbors(&f, i, &c);
        assert_eq!(cohesion(&f, i, &near, &c), Vec2::new(x, y));
    }
}

#[test]
fn separation_pushes_away_from_the_nearest() {
    let f = flock();
    let c = config();
    let expected = [(0, 655360), (393210, 524280), (0, 0), (0, -655360), (0, 0)];
    for (i, &(x, y)) in expected.iter().enumerate() {
        let near = find_neighbors(&f, i, &c);
        assert_eq!(separation(&f, i, &near, &c), Vec2::new(x, y));
    }
}

#[test]
fn alignment_follows_the_mean_heading() {
    let f = flock();
    let c = config();
    let expected = [(40065, 89767), (40065, 89767), (40065, 89767), (40065, 89767), (0, 0)];
    for (i, &(x, y)) in expected.iter().enumerate() {
        let near = find_neighbors(&f, i, &c);
        assert_eq!(alignment(&f, i, &near, &c), Vec2::new(x, y));
    }
}

#[test]
fn the_goal_pulls_whoever_is_near() {
    let f = flock();
    let c = config();
    let expected = [(105050, 66849), (105508, 66123), (103604, 69068), (104400, 67860), (-55685, -111371)];
    for (i, &(x, y)) in expected.iter().enumerate() {
        assert_eq!(goal_seeking(&f, i, &c), Vec2::new(x, y));
    }
}

#[test]
fn the_delta_is_the_sum_of_the_four_rules() {
    let f = flock();
    let c = config();
    let expected = [(399948, 831577), (555783, 425150), (-111745, 168292), (325190, -317008), (-55685, -111371)];
    for (i, &(x, y)) in expected.iter().enumerate() {
        let near = find_neighbors(&f, i, &c);
        let sum = cohesion(&f, i, &near, &c)
            .plus(separation(&f, i, &near, &c))
            .plus(alignment(&f, i, &near, &c))
            .plus(goal_seeking(&f, i, &c));
        assert_eq!(steer(&f, i, &c), Vec2::new(x, y));
        assert_eq!(steer(&f, i, &c), sum);
    }
}

#[test]
fn rules_without_weight_say_nothing() {
    let f = flock();
    let mut c = config();
    c.cohesion_weight = 0;
    c.separation_weight = 0;
    c.alignment_weight = 0;
    c.goal_weight = 0;
    for i in 0..f.len() {
        assert_eq!(steer(&f, i, &c), Vec2::zero());
    }
}

#[test]
fn a_boid_at_its_centroid_feels_no_cohesion() {
    let at = |x: i64, y: i64| Boid { position: Vec2::new(x, y), heading: Vec2::new(ONE, 0) };
    let f = Flock::from_boids(vec![at(0, 0), at(6 * ONE, 0), at(-6 * ONE, 0)]).unwrap();
    let c = config();
    let near = find_neighbors(&f, 0, &c);
    assert_eq!(near.neighbors, vec![1, 2]);
    assert_eq!(cohesion(&f, 0, &near, &c), Vec2::zero());
    let near = find_neighbors(&f, 1, &c);
    assert_eq!(cohesion(&f, 1, &near, &c), Vec2::new(-255590, 0));
}

#[test]
fn a_boid_at_the_goal_feels_no_goal() {
    let f = Flock::from_boids(vec![Boid {
        position: Vec2::new(320 * ONE, 240 * ONE),
        heading: Vec2::new(0, ONE),
    }])
    .unwrap();
    assert_eq!(goal_seeking(&f, 0, &config()), Vec2::zero());
    assert_eq!(steer(&f, 0, &config()), Vec2::zero());
}

#[test]
fn boids_at_the_same_place_do_not_push() {
    let at = |x: i64, y: i64| Boid { position: Vec2::new(x, y), heading: Vec2::new(ONE, 0) };
    let f = Flock::from_boids(vec![at(5, 5), at(5, 5)]).unwrap();
    let c = config();
    let near = find_neighbors(&f, 0, &c);
    assert_eq!(near.nearest, Some(1));
    assert_eq!(separation(&f, 0, &near, &c), Vec2::zero());
}
