use boids::config::Config;
use boids::fixed::ONE;
use boids::flock::{Boid, Flock};
use boids::pipeline::tick;
use boids::scheduler::Scheduler;
use boids::simulation::Simulation;
use boids::vector::Vec2;

const TICK: u64 = 16_666_667;

fn config() -> Config {
    Config {
        population: 12,
        width: 640,
        height: 480,
        neighbor_radius: 25 * ONE,
        protected_radius: 5 * ONE,
        separation_weight: 10 * ONE,
        alignment_weight: 98304,
        cohesion_weight: 255590,
        goal_weight: 124518,
        speed: 170 * ONE,
        goal: Vec2::new(320 * ONE, 240 * ONE),
        tick_nanos: TICK,
    }
}

fn flock() -> Flock {
    let mut boids = Vec::new();
    for i in 0..12i64 {
        let position = Vec2::new((300 + 7 * i) * ONE, (200 + (i * i) % 17 * 3) * ONE);
        boids.push(Boid::new(position, Vec2::new(100 * (3 - i), 100 * (2 * i - 5))).unwrap());
    }
    Flock::from_boids(boids).unwrap()
}

fn run(frames: &[u64]) -> (u64, Simulation) {
    let mut sim = Simulation::new(flock(), config()).ok().unwrap();
    let mut ticks = 0;
    for &frame in frames {
        ticks += sim.advance(frame);
    }
    (ticks, sim)
}

#[test]
fn no_scheduler_for_ticks_of_no_length() {
    assert!(Scheduler::new(0).is_none());
    let s = Scheduler::new(1).unwrap();
    assert_eq!(s.tick_nanos(), 1);
    assert_eq!(s.pending_nanos(), 0);
}

#[test]
fn a_short_frame_runs_no_tick() {
    let mut s = Scheduler::new(10).unwrap();
    assert_eq!(s.accrue(9), 0);
    assert_eq!(s.pending_nanos(), 9);
    assert_eq!(s.accrue(0), 0);
    assert_eq!(s.pending_nanos(), 9);
    assert_eq!(s.accrue(1), 1);
    assert_eq!(s.pending_nanos(), 0);
}

#[test]
fn a_long_frame_runs_several_ticks() {
    let mut s = Scheduler::new(10).unwrap();
    assert_eq!(s.accrue(35), 3);
    assert_eq!(s.pending_nanos(), 5);
    assert_eq!(s.accrue(35), 4);
    assert_eq!(s.pending_nanos(), 0);
    assert_eq!(s.tick_nanos(), 10);
}

#[test]
fn one_frame_of_three_ticks_runs_three_ticks() {
    let mut s = Scheduler::new(TICK).unwrap();
    assert_eq!(s.accrue(3 * TICK), 3);
    assert_eq!(s.pending_nanos(), 0);
}

#[test]
fn three_frames_of_one_tick_run_three_ticks() {
    let mut s = Scheduler::new(TICK).unwrap();
    let mut ticks = 0;
    for _ in 0..3 {
        let due = s.accrue(TICK);
        assert_eq!(due, 1);
        ticks += due;
    }
    assert_eq!(ticks, 3);
    assert_eq!(s.pending_nanos(), 0);
}

#[test]
fn the_split_of_the_time_does_not_change_the_ticks() {
    let splits: [&[u64]; 6] = [
        &[60],
        &[10, 10, 10, 10, 10, 10],
        &[4, 4, 4, 4, 4, 4, 4, 4, 4, 4, 4, 4, 4, 4, 4],
        &[1, 59],
        &[59, 1],
        &[0, 7, 0, 23, 30, 0],
    ];
    for frames in splits {
        let mut s = Scheduler::new(10).unwrap();
        let ticks: u64 = frames.iter().map(|&f| s.accrue(f)).sum();
        assert_eq!(ticks, 6);
        assert_eq!(s.pending_nanos(), 0);
    }
    let mut s = Scheduler::new(10).unwrap();
    let due: Vec<u64> = [4u64, 4, 4, 4, 4].iter().map(|&f| s.accrue(f)).collect();
    assert_eq!(due, vec![0, 0, 1, 0, 1]);
}

#[test]
fn the_largest_frame_fits() {
    let mut s = Scheduler::new(1).unwrap();
    assert_eq!(s.accrue(u64::MAX), u64::MAX);
    assert_eq!(s.pending_nanos(), 0);
    let mut s = Scheduler::new(u64::MAX).unwrap();
    assert_eq!(s.accrue(u64::MAX - 1), 0);
    assert_eq!(s.accrue(u64::MAX), 1);
    assert_eq!(s.pending_nanos(), u64::MAX - 1);
    let mut s = Scheduler::new(3).unwrap();
    assert_eq!(s.accrue(2), 0);
    assert_eq!(s.accrue(u64::MAX), 6148914691236517205);
    assert_eq!(s.pending_nanos(), 2);
}

#[test]
fn a_new_simulation_holds_what_it_was_given() {
    let sim = Simulation::new(flock(), config()).ok().unwrap();
    assert_eq!(sim.flock().to_vec(), flock().to_vec());
    assert_eq!(*sim.config(), config());
    assert_eq!(sim.pending_nanos(), 0);
}

#[test]
fn step_runs_one_tick() {
    let mut sim = Simulation::new(flock(), config()).ok().unwrap();
    let mut f = flock();
    sim.step();
    tick(&mut f, &config());
    assert_eq!(sim.flock().to_vec(), f.to_vec());
    assert_eq!(sim.pending_nanos(), 0);
}

#[test]
fn advance_runs_the_ticks_that_are_due() {
    let mut sim = Simulation::new(flock(), config()).ok().unwrap();
    let mut f = flock();
    assert_eq!(sim.advance(TICK - 1), 0);
    assert_eq!(sim.flock().to_vec(), f.to_vec());
    assert_eq!(sim.pending_nanos(), TICK - 1);
    assert_eq!(sim.advance(2 * TICK + 1), 3);
    for _ in 0..3 {
        tick(&mut f, &config());
    }
    assert_eq!(sim.flock().to_vec(), f.to_vec());
    assert_eq!(sim.pending_nanos(), 0);
    assert_ne!(sim.flock().to_vec(), flock().to_vec());
}

#[test]
fn the_split_of_the_time_does_not_change_the_flock() {
    let (ticks, whole) = run(&[12 * TICK]);
    assert_eq!(ticks, 12);
    let splits: [&[u64]; 4] = [
        &[TICK; 12],
        &[3 * TICK, 0, 9 * TICK],
        &[TICK / 2, TICK / 2 + 1, 10 * TICK - 1, TICK + 1],
        &[5 * TICK + 5, 7 * TICK - 5],
    ];
    for frames in splits {
        assert_eq!(frames.iter().sum::<u64>(), 12 * TICK);
        let (ticks, sim) = run(frames);
        assert_eq!(ticks, 12);
        assert_eq!(sim.pending_nanos(), 0);
        assert_eq!(sim.flock().to_vec(), whole.flock().to_vec());
    }
}
