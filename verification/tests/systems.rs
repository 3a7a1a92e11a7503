use superboids::agent::{Bounds, BoundaryPolicy};
use superboids::boid::Boid;
use superboids::flock::tick;
use superboids::movement::{
    alignment_system, cohesion_system, contain_system, move_system, separation_system,
    MovementPlugin,
};
use superboids::settings::BoidSettings;
use superboids::vector::Vec2;

/// The weight 1.
const W: i64 = 1_000_000;

/// One world unit.
const U: i64 = 1_000_000;

fn v(x: i64, y: i64) -> Vec2 {
    Vec2 { x, y }
}

fn boid(position: Vec2, velocity: Vec2) -> Boid {
    Boid {
        position,
        velocity,
        acceleration: v(0, 0),
        max_force: U / 2,
        min_velocity: U / 2,
        max_velocity: U,
    }
}

fn window() -> Bounds {
    Bounds { left: -640 * U, right: 640 * U, bottom: -360 * U, top: 360 * U }
}

fn flock() -> Vec<Boid> {
    vec![
        boid(v(0, 0), v(U, 0)),
        boid(v(10 * U, 0), v(0, U)),
        boid(v(0, 20 * U), v(-U, 0)),
        boid(v(639_500_000, 300 * U), v(U, 0)),
    ]
}

#[test]
fn steering_systems_gather_into_the_acceleration() {
    let settings = BoidSettings { alignment: 5 * W, cohesion: W, separation: 5 * W };
    let mut boids = flock();
    alignment_system(&mut boids, &settings);
    assert_eq!(boids[0].acceleration, v(-7_500_000, 2_500_000));
    assert_eq!(boids[3].acceleration, v(0, 0));
    cohesion_system(&mut boids, &settings);
    assert_eq!(boids[0].acceleration, v(-2_500_000, 12_500_000));
    separation_system(&mut boids, &settings);
    assert_eq!(boids[0].acceleration, v(-7_500_000, 7_500_000));
    for (after, before) in boids.iter().zip(flock().iter()) {
        assert_eq!(after.position, before.position);
        assert_eq!(after.velocity, before.velocity);
    }
}

#[test]
fn steering_systems_commute() {
    let settings = BoidSettings { alignment: 3 * W, cohesion: -2 * W, separation: 7 * W };
    let mut one = flock();
    alignment_system(&mut one, &settings);
    cohesion_system(&mut one, &settings);
    separation_system(&mut one, &settings);
    let mut other = flock();
    separation_system(&mut other, &settings);
    alignment_system(&mut other, &settings);
    cohesion_system(&mut other, &settings);
    assert_eq!(one, other);
    assert_ne!(one, flock());
}

#[test]
fn move_system_integrates_every_boid() {
    let mut boids = flock();
    boids[1].acceleration = v(6 * U, 8 * U);
    move_system(&mut boids);
    assert_eq!(boids[0].position, v(U, 0));
    assert_eq!(boids[0].velocity, v(U, 0));
    assert_eq!(boids[1].position, v(10 * U, U));
    // (0, 1) + (0.3, 0.4) = (0.3, 1.4), shortened to length 1
    assert_eq!(boids[1].velocity, v(209_528, 977_801));
    assert_eq!(boids[1].acceleration, v(0, 0));
    assert_eq!(boids[3].position, v(640_500_000, 300 * U));
}

#[test]
fn contain_system_wraps_every_boid() {
    let w = window();
    let mut boids = vec![
        boid(v(w.right + 1, 0), v(U, 0)),
        boid(v(w.left - 1, w.top + 1), v(U, 0)),
        boid(v(w.right, w.bottom), v(U, 0)),
    ];
    contain_system(&mut boids, &w);
    assert_eq!(boids[0].position, v(w.left, 0));
    assert_eq!(boids[1].position, v(w.right, w.bottom));
    assert_eq!(boids[2].position, v(w.right, w.bottom));
}

#[test]
fn the_systems_in_order_make_one_tick() {
    for settings in [
        BoidSettings { alignment: 5 * W, cohesion: W, separation: 5 * W },
        BoidSettings { alignment: 10 * W, cohesion: W, separation: 10 * W },
        BoidSettings { alignment: -W, cohesion: 0, separation: 2 * W },
    ] {
        let mut boids = flock();
        let mut expected = flock();
        for _ in 0..20 {
            expected = tick(&expected, &settings, &window(), BoundaryPolicy::Wrap);
            MovementPlugin.update(&mut boids, &settings, &window());
            assert_eq!(boids, expected);
        }
    }
}
