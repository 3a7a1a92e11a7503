use superboids::agent::{Bounds, BoundaryPolicy};
use superboids::boid::Boid;
use superboids::flock::{all_can_move, is_tickable, step_boid, tick, update_boids};
use superboids::settings::BoidSettings;
use superboids::timer::GameTimer;
use superboids::vector::Vec2;

/// The weight 1.
const W: i64 = 1_000_000;

/// One world unit.
const U: i64 = 1_000_000;

fn boid_at(x: i64, y: i64, vx: i64, vy: i64) -> Boid {
    Boid {
        position: Vec2 { x, y },
        velocity: Vec2 { x: vx, y: vy },
        acceleration: Vec2 { x: 0, y: 0 },
        max_force: U / 2,
        min_velocity: U / 2,
        max_velocity: U,
    }
}

fn window() -> Bounds {
    Bounds { left: -640 * U, right: 640 * U, bottom: -360 * U, top: 360 * U }
}

#[test]
fn three_aligned_boids_keep_their_heading() {
    let flock = vec![boid_at(0, 0, U, 0), boid_at(10 * U, 0, U, 0), boid_at(0, 10 * U, U, 0)];
    let settings = BoidSettings { alignment: W, cohesion: 0, separation: 0 };
    for policy in [BoundaryPolicy::Wrap, BoundaryPolicy::SoftTurn] {
        let next = tick(&flock, &settings, &window(), policy);
        assert_eq!(next.len(), 3);
        for (before, after) in flock.iter().zip(next.iter()) {
            assert_eq!(after.velocity, Vec2 { x: U, y: 0 });
            assert_eq!(after.position, Vec2 { x: before.position.x + U, y: before.position.y });
            assert_eq!(after.acceleration, Vec2 { x: 0, y: 0 });
        }
    }
}

#[test]
fn lone_boid_moves_in_a_straight_line() {
    let mut flock = vec![boid_at(-5 * U, 2 * U, 600_000, -800_000)];
    let settings = BoidSettings { alignment: 5 * W, cohesion: W, separation: 5 * W };
    let me = flock[0];
    assert!(me.local_boids(&flock, Some(0)).is_empty());
    assert_eq!(me.alignment(&[]), Vec2 { x: 0, y: 0 });
    assert_eq!(me.cohesion(&[]), Vec2 { x: 0, y: 0 });
    assert_eq!(me.separation(&[]), Vec2 { x: 0, y: 0 });
    for n in 1..=50i64 {
        flock = tick(&flock, &settings, &window(), BoundaryPolicy::Wrap);
        assert_eq!(flock[0].velocity, Vec2 { x: 600_000, y: -800_000 });
        assert_eq!(flock[0].position, Vec2 { x: -5 * U + 600_000 * n, y: 2 * U - 800_000 * n });
    }
}

#[test]
fn lone_boid_wraps_at_the_right_edge() {
    let flock = vec![boid_at(639 * U + 1, 0, U, 0)];
    let settings = BoidSettings::default();
    let next = tick(&flock, &settings, &window(), BoundaryPolicy::Wrap);
    assert_eq!(next[0].position, Vec2 { x: -640 * U, y: 0 });
    assert_eq!(next[0].velocity, Vec2 { x: U, y: 0 });
}

#[test]
fn wrap_sets_a_boid_beyond_an_edge_onto_the_opposite_edge() {
    let w = window();
    let mut boid = boid_at(w.right + 1, 0, U, 0);
    boid.wrap(w.left, w.right, w.bottom, w.top);
    assert_eq!(boid.position, Vec2 { x: w.left, y: 0 });
    assert_eq!(boid.velocity, Vec2 { x: U, y: 0 });

    // one world unit beyond the right edge
    let mut boid = boid_at(w.right + U, 0, U, 0);
    boid.wrap(w.left, w.right, w.bottom, w.top);
    assert_eq!(boid.position.x, w.left);

    let mut boid = boid_at(w.left - 1, w.top + 1, 0, 700_000);
    boid.wrap(w.left, w.right, w.bottom, w.top);
    assert_eq!(boid.position, Vec2 { x: w.right, y: w.bottom });

    let mut boid = boid_at(w.right, w.bottom - 1, 0, 700_000);
    boid.wrap(w.left, w.right, w.bottom, w.top);
    assert_eq!(boid.position, Vec2 { x: w.right, y: w.top });

    let mut boid = boid_at(12, -34, 0, 700_000);
    boid.wrap(w.left, w.right, w.bottom, w.top);
    assert_eq!(boid.position, Vec2 { x: 12, y: -34 });
}

#[test]
fn soft_turn_pushes_inward_near_each_edge() {
    let w = window();
    let push = 10_000 * U;
    let mut boid = boid_at(w.right - 5 * U + 1, 0, U, 0);
    boid.contain(w.left, w.right, w.bottom, w.top);
    assert_eq!(boid.acceleration, Vec2 { x: -push, y: 0 });

    let mut boid = boid_at(w.right - 5 * U, w.top - 5 * U, U, 0);
    boid.contain(w.left, w.right, w.bottom, w.top);
    assert_eq!(boid.acceleration, Vec2 { x: 0, y: 0 });

    let mut boid = boid_at(w.left + 5 * U - 1, w.bottom + 5 * U - 1, U, 0);
    boid.acceleration = Vec2 { x: 7, y: -9 };
    boid.contain(w.left, w.right, w.bottom, w.top);
    assert_eq!(boid.acceleration, Vec2 { x: push + 7, y: push - 9 });
    assert_eq!(boid.position, Vec2 { x: w.left + 5 * U - 1, y: w.bottom + 5 * U - 1 });
    assert_eq!(boid.velocity, Vec2 { x: U, y: 0 });

    let mut boid = boid_at(0, w.top - 1, U, 0);
    boid.contain(w.left, w.right, w.bottom, w.top);
    assert_eq!(boid.acceleration, Vec2 { x: 0, y: -push });
}

#[test]
fn soft_turn_is_subject_to_the_force_clamp() {
    let w = window();
    let flock = vec![boid_at(w.right - U, 0, U, 0)];
    let settings = BoidSettings::default();
    let next = tick(&flock, &settings, &w, BoundaryPolicy::SoftTurn);
    assert_eq!(next[0].position, Vec2 { x: w.right, y: 0 });
    assert_eq!(next[0].velocity, Vec2 { x: U / 2, y: 0 });
    assert_eq!(next[0].acceleration, Vec2 { x: 0, y: 0 });
}

#[test]
fn cohesion_pulls_two_boids_together() {
    let flock = vec![boid_at(0, 0, U, 0), boid_at(6 * U, 8 * U, U, 0)];
    let settings = BoidSettings { alignment: 0, cohesion: W, separation: 0 };
    let next = tick(&flock, &settings, &window(), BoundaryPolicy::Wrap);
    assert_eq!(next[0].position, Vec2 { x: U, y: 0 });
    // (1, 0) + (0.3, 0.4) = (1.3, 0.4), shortened to length 1
    assert_eq!(next[0].velocity, Vec2 { x: 955_778, y: 294_085 });
    assert_eq!(next[1].position, Vec2 { x: 7 * U, y: 8 * U });
    assert_eq!(next[1].velocity, Vec2 { x: 700_000, y: -400_000 });
}

#[test]
fn negative_separation_weight_inverts_the_rule() {
    let flock = vec![boid_at(0, 0, 0, 0), boid_at(3 * U, 4 * U, 0, 0)];
    let mut apart = BoidSettings { alignment: 0, cohesion: 0, separation: W };
    let next = tick(&flock, &apart, &window(), BoundaryPolicy::Wrap);
    // push on the first boid: (-0.6, -0.8), clamped to 0.5: (-0.3, -0.4);
    // the velocity (-0.3, -0.4) has length 0.5 and stays
    assert_eq!(next[0].velocity, Vec2 { x: -300_000, y: -400_000 });
    assert_eq!(next[1].velocity, Vec2 { x: 300_000, y: 400_000 });
    apart.separation = -W;
    let next = tick(&flock, &apart, &window(), BoundaryPolicy::Wrap);
    assert_eq!(next[0].velocity, Vec2 { x: 300_000, y: 400_000 });
    assert_eq!(next[1].velocity, Vec2 { x: -300_000, y: -400_000 });
}

#[test]
fn a_negative_fraction_of_separation_draws_a_pair_together() {
    let mut timer = GameTimer::new(10_000_000);
    let mut flock = vec![boid_at(0, 0, 750_000, 0), boid_at(8 * U, 0, 750_000, 0)];
    let settings = BoidSettings { alignment: 0, cohesion: 0, separation: -W / 4 };
    assert!(update_boids(&mut timer, 10_000_000, &mut flock, &settings, &window()));
    assert_eq!(flock[0], boid_at(750_000, 0, U, 0));
    assert_eq!(flock[1], boid_at(8 * U + 750_000, 0, U / 2, 0));
}

#[test]
fn tick_reads_the_snapshot_only() {
    let flock = vec![
        boid_at(0, 0, U, 0),
        boid_at(6 * U, 8 * U, 0, 900_000),
        boid_at(-3 * U, 2 * U, -700_000, 100_000),
        boid_at(200 * U, 0, 0, -U),
    ];
    let settings = BoidSettings::default();
    let all = tick(&flock, &settings, &window(), BoundaryPolicy::SoftTurn);
    // each boid stepped alone from the snapshot, last index first
    for i in (0..flock.len()).rev() {
        let one = step_boid(&flock, i, &settings, &window(), BoundaryPolicy::SoftTurn);
        assert_eq!(one, all[i]);
    }
}

#[test]
fn tick_twice_on_one_snapshot_gives_one_result() {
    let flock = vec![
        boid_at(0, 0, U, 0),
        boid_at(6 * U, 8 * U, 0, 900_000),
        boid_at(6 * U, 8 * U, 0, 900_000),
        boid_at(-3 * U, 2 * U, -700_000, 100_000),
    ];
    let settings = BoidSettings::default();
    for policy in [BoundaryPolicy::Wrap, BoundaryPolicy::SoftTurn] {
        let first = tick(&flock, &settings, &window(), policy);
        let second = tick(&flock, &settings, &window(), policy);
        assert_eq!(first, second);
    }
}

#[test]
fn tick_of_an_empty_flock_is_empty() {
    let flock: Vec<Boid> = Vec::new();
    assert!(is_tickable(&flock, &BoidSettings::default()));
    let next = tick(&flock, &BoidSettings::default(), &window(), BoundaryPolicy::Wrap);
    assert!(next.is_empty());
}

#[test]
fn speed_stays_within_limits_over_many_ticks() {
    let mut flock = vec![
        boid_at(0, 0, 0, 0),
        boid_at(U, U / 2, 3, -4),
        boid_at(-2 * U, 700_000, U, 0),
        boid_at(U / 2, -900_000, -707_000, 707_000),
        boid_at(U / 2, -900_000, 5 * U, 5 * U),
        boid_at(30 * U, 10 * U, 0, 1),
    ];
    flock[0].acceleration = Vec2 { x: 1, y: 0 };
    let settings = BoidSettings::default();
    let (min_sq, max_sq) = ((U as u128 / 2) * (U as u128 / 2), (U as u128) * (U as u128));
    for _ in 0..200 {
        assert!(is_tickable(&flock, &settings));
        flock = tick(&flock, &settings, &window(), BoundaryPolicy::Wrap);
        for boid in &flock {
            let q = boid.velocity.length_squared();
            assert!(q == 0 || (min_sq <= q && q <= max_sq), "speed squared {}", q);
            assert_eq!(boid.acceleration, Vec2 { x: 0, y: 0 });
            assert!(window().left <= boid.position.x && boid.position.x <= window().right);
            assert!(window().bottom <= boid.position.y && boid.position.y <= window().top);
        }
    }
}

#[test]
fn a_boid_at_rest_with_nothing_gathered_stays_at_rest() {
    let flock = vec![boid_at(0, 0, 0, 0)];
    let next = tick(&flock, &BoidSettings::default(), &window(), BoundaryPolicy::Wrap);
    assert_eq!(next[0].velocity, Vec2 { x: 0, y: 0 });
    assert_eq!(next[0].position, Vec2 { x: 0, y: 0 });
}

#[test]
fn tickable_flocks_are_told_apart() {
    let settings = BoidSettings::default();
    let good = vec![boid_at(0, 0, U, 0), boid_at(U, U, 0, 0)];
    assert!(is_tickable(&good, &settings));
    assert!(all_can_move(&good));
    let mut loaded = good.clone();
    loaded[1].acceleration.y = -1_000_000_000_000_000_001;
    assert!(!is_tickable(&loaded, &settings));
    loaded[1].acceleration.y = -1_000_000_000_000_000_000;
    assert!(is_tickable(&loaded, &settings));
    let mut far = good.clone();
    far[0].position.x = 1_000_000_000_001;
    assert!(!is_tickable(&far, &settings));
    far[0].position.x = 1_000_000_000_000;
    assert!(is_tickable(&far, &settings));
    assert!(!all_can_move(&far));
    let heavy = BoidSettings { alignment: 1_000_000 * W + 1, cohesion: 0, separation: 0 };
    assert!(!is_tickable(&good, &heavy));
    let heavy = BoidSettings { alignment: 1_000_000 * W, cohesion: 0, separation: 0 };
    assert!(is_tickable(&good, &heavy));
}

#[test]
fn update_boids_runs_one_tick_when_a_step_completes() {
    let mut timer = GameTimer::new(10_000_000);
    let start = vec![boid_at(0, 0, U, 0), boid_at(6 * U, 8 * U, 0, 900_000)];
    let mut flock = start.clone();
    let settings = BoidSettings::default();
    assert!(!update_boids(&mut timer, 4_000_000, &mut flock, &settings, &window()));
    assert_eq!(flock, start);
    assert_eq!(timer.elapsed, 4_000_000);
    assert!(update_boids(&mut timer, 7_000_000, &mut flock, &settings, &window()));
    assert_eq!(flock, tick(&start, &settings, &window(), BoundaryPolicy::SoftTurn));
    assert_ne!(flock, start);
    assert_eq!(timer.elapsed, 1_000_000);
    // three steps gathered at once still give one tick
    let before = flock.clone();
    assert!(update_boids(&mut timer, 30_000_000, &mut flock, &settings, &window()));
    assert_eq!(flock, tick(&before, &settings, &window(), BoundaryPolicy::SoftTurn));
    assert_eq!(timer.elapsed, 1_000_000);
}

#[test]
fn tick_does_not_depend_on_the_order_of_the_flock() {
    let flock = vec![
        boid_at(0, 0, U, 0),
        boid_at(6 * U, 8 * U, 0, 900_000),
        boid_at(6 * U, 8 * U, 0, 900_000),
        boid_at(-3 * U, 2 * U, -700_000, 100_000),
        boid_at(7 * U + 1, -2 * U, 333_333, -666_667),
        boid_at(639 * U, 359 * U, 800_000, 600_000),
    ];
    // the boid at index i of `flock` stands at index `to[i]` of `other`
    let to = [3usize, 0, 5, 1, 4, 2];
    let mut other = flock.clone();
    for (i, boid) in flock.iter().enumerate() {
        other[to[i]] = *boid;
    }
    let settings = BoidSettings { alignment: 5 * W, cohesion: W, separation: 5 * W };
    for policy in [BoundaryPolicy::Wrap, BoundaryPolicy::SoftTurn] {
        let mut here = flock.clone();
        let mut there = other.clone();
        for _ in 0..25 {
            here = tick(&here, &settings, &window(), policy);
            there = tick(&there, &settings, &window(), policy);
            for i in 0..here.len() {
                assert_eq!(there[to[i]], here[i]);
            }
        }
    }
}
