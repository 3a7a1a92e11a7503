use superboids::boid::Boid;
use superboids::settings::BoidSettings;
use superboids::vector::Vec2;

/// The weight 1.
const W: i64 = 1_000_000;

/// One world unit.
const U: i64 = 1_000_000;

fn v(x: i64, y: i64) -> Vec2 {
    Vec2 { x, y }
}

fn boid(position: Vec2, velocity: Vec2) -> Boid {
    Boid {
        position,
        velocity,
        acceleration: v(0, 0),
        max_force: U / 2,
        min_velocity: U / 2,
        max_velocity: U,
    }
}

#[test]
fn local_boids_are_those_strictly_within_the_radius() {
    let me = boid(v(0, 0), v(U, 0));
    let flock = vec![
        me,
        boid(v(50 * U - 1, 0), v(0, 0)),
        boid(v(50 * U, 0), v(0, 0)),
        boid(v(30 * U, 40 * U), v(0, 0)),
        boid(v(30 * U, 40 * U - 1), v(0, 0)),
        boid(v(-35 * U, -35 * U), v(0, 0)),
        boid(v(0, -50 * U - 1), v(0, 0)),
    ];
    let near = me.local_boids(&flock, Some(0));
    let places: Vec<Vec2> = near.iter().map(|b| b.position).collect();
    assert_eq!(places, vec![v(50 * U - 1, 0), v(30 * U, 40 * U - 1), v(-35 * U, -35 * U)]);
}

#[test]
fn local_boids_leave_out_the_boid_itself_by_index() {
    let twin = boid(v(5, 5), v(1, 1));
    let flock = vec![twin, twin, twin];
    // a boid at the same place with the same state is still a neighbour
    assert_eq!(twin.local_boids(&flock, Some(1)).len(), 2);
    assert_eq!(twin.local_boids(&flock, Some(0)).len(), 2);
    // a boid that is not in the flock sees all of them
    assert_eq!(twin.local_boids(&flock, None).len(), 3);
    assert_eq!(twin.local_boids(&flock, Some(3)).len(), 3);
    assert_eq!(twin.local_boids(&[], None).len(), 0);
}

#[test]
fn steering_without_neighbours_is_zero() {
    let me = boid(v(123, -456), v(700_000, 100_000));
    assert_eq!(me.alignment(&[]), v(0, 0));
    assert_eq!(me.cohesion(&[]), v(0, 0));
    assert_eq!(me.separation(&[]), v(0, 0));
    assert_eq!(me.steering(&[], &BoidSettings::default()), v(0, 0));
}

#[test]
fn alignment_is_mean_velocity_less_own() {
    let me = boid(v(0, 0), v(U, 0));
    let a = boid(v(10 * U, 0), v(0, U));
    let b = boid(v(0, 20 * U), v(-U, 0));
    assert_eq!(me.alignment(&[&a, &b]), v(-1_500_000, 500_000));
    assert_eq!(me.alignment(&[&a]), v(-U, U));
    // identical velocities: nothing to align
    let c = boid(v(1, 1), v(U, 0));
    assert_eq!(me.alignment(&[&c, &c, &c]), v(0, 0));
}

#[test]
fn alignment_rounds_the_mean_toward_zero() {
    let me = boid(v(0, 0), v(0, 0));
    let a = boid(v(0, 0), v(-1001, 1));
    let b = boid(v(0, 0), v(0, 2));
    assert_eq!(me.alignment(&[&a, &b]), v(-500, 1));
}

#[test]
fn cohesion_is_mean_position_less_own() {
    let me = boid(v(U, U), v(U, 0));
    let a = boid(v(10 * U, 0), v(0, U));
    let b = boid(v(0, 20 * U), v(-U, 0));
    assert_eq!(me.cohesion(&[&a, &b]), v(4 * U, 9 * U));
    let c = boid(v(-7, -8), v(0, 0));
    let d = boid(v(0, 1), v(0, 0));
    let origin = boid(v(0, 0), v(0, 0));
    assert_eq!(origin.cohesion(&[&c, &d]), v(-3, -3));
}

#[test]
fn separation_sums_the_pushes() {
    let me = boid(v(0, 0), v(U, 0));
    let a = boid(v(10 * U, 0), v(0, U));
    let b = boid(v(0, 20 * U), v(-U, 0));
    assert_eq!(me.repulsion(&a), v(-U, 0));
    assert_eq!(me.repulsion(&b), v(0, -U));
    assert_eq!(me.separation(&[&a, &b]), v(-U, -U));
    let c = boid(v(-3 * U, -4 * U), v(0, 0));
    assert_eq!(me.repulsion(&c), v(600_000, 800_000));
    assert_eq!(me.separation(&[&a, &b, &c]), v(-400_000, -200_000));
    // one sub-unit away along each axis: 1 / sqrt(2) = 0.7071067...
    let d = boid(v(-1, 1), v(0, 0));
    assert_eq!(me.repulsion(&d), v(707_106, -707_106));
    let e = boid(v(5, 12), v(0, 0));
    assert_eq!(me.repulsion(&e), v(-384_615, -923_076));
}

#[test]
fn pushes_are_one_world_unit_long() {
    let me = boid(v(0, 0), v(U, 0));
    let places = [
        v(1, 0),
        v(1, 1),
        v(-2, 1),
        v(3, -7),
        v(123_456, 654_321),
        v(-49 * U, 9 * U),
        v(1_000_000_000_000, -1_000_000_000_000),
        v(-1_000_000_000_000, 1),
    ];
    let mut near: Vec<Boid> = Vec::new();
    for place in places {
        let other = boid(place, v(0, U));
        let push = me.repulsion(&other);
        let q = push.length_squared();
        assert!(q <= (U as u128) * (U as u128), "{:?}", place);
        assert!(q >= ((U - 2) as u128) * ((U - 2) as u128), "{:?}", place);
        // each coordinate is the exact one rounded toward zero
        let d = ((place.x as f64).powi(2) + (place.y as f64).powi(2)).sqrt();
        assert!((push.x as f64 - (-place.x as f64) * 1e6 / d).abs() <= 1.0, "{:?}", place);
        assert!((push.y as f64 - (-place.y as f64) * 1e6 / d).abs() <= 1.0, "{:?}", place);
        near.push(other);
        let refs: Vec<&Boid> = near.iter().collect();
        let n = (near.len() as u128) * (U as u128);
        assert!(me.separation(&refs).length_squared() <= n * n);
    }
}

#[test]
fn separation_reads_no_velocity_and_is_not_averaged() {
    let me = boid(v(0, 0), v(U, 0));
    let a = boid(v(10 * U, 0), v(0, U));
    let still = boid(v(10 * U, 0), v(0, 0));
    assert_eq!(me.separation(&[&a, &a, &a]), v(-3 * U, 0));
    assert_eq!(me.separation(&[&still, &still, &still]), v(-3 * U, 0));
    let mut fast = me;
    fast.velocity = v(-U, U / 2);
    assert_eq!(fast.separation(&[&a, &a, &a]), v(-3 * U, 0));
}

#[test]
fn separation_of_coincident_boids_is_zero() {
    let me = boid(v(77, -88), v(U, 0));
    let twin = boid(v(77, -88), v(0, U / 2));
    assert_eq!(me.repulsion(&twin), v(0, 0));
    assert_eq!(me.separation(&[&twin]), v(0, 0));
    let other = boid(v(77, U - 88), v(0, 0));
    assert_eq!(me.separation(&[&twin, &other, &twin]), v(0, -U));
}

#[test]
fn steering_weighs_the_three_rules() {
    let me = boid(v(0, 0), v(U, 0));
    let a = boid(v(10 * U, 0), v(0, U));
    let b = boid(v(0, 20 * U), v(-U, 0));
    // alignment (-1.5, 0.5), cohesion (5, 10), separation (-1, -1)
    let settings = BoidSettings { alignment: 5 * W, cohesion: W, separation: 5 * W };
    assert_eq!(me.steering(&[&a, &b], &settings), v(-7_500_000, 7_500_000));
    let settings = BoidSettings { alignment: -2 * W, cohesion: 0, separation: 3 * W };
    assert_eq!(me.steering(&[&a, &b], &settings), v(0, -4_000_000));
    // fractions: -0.25 * (-1.5, 0.5) + 0.5 * (5, 10) + 1.5 * (-1, -1)
    let settings = BoidSettings { alignment: -W / 4, cohesion: W / 2, separation: 3 * W / 2 };
    assert_eq!(me.steering(&[&a, &b], &settings), v(1_375_000, 3_375_000));
    // each product is rounded toward zero: 0.000001 * (-1.5, 0.5) world units
    let settings = BoidSettings { alignment: 1, cohesion: 0, separation: 0 };
    assert_eq!(me.steering(&[&a, &b], &settings), v(-1, 0));
}

#[test]
fn update_follows_the_order_of_integration() {
    let mut b = boid(v(100, 200), v(U, 0));
    b.acceleration = v(6 * U, 8 * U);
    b.update();
    // the position moves by the old velocity
    assert_eq!(b.position, v(U + 100, 200));
    // applied acceleration (0.3, 0.4); (1.3, 0.4) shortened to length 1
    assert_eq!(b.velocity, v(955_778, 294_085));
    assert_eq!(b.acceleration, v(0, 0));
}

#[test]
fn update_applies_no_more_than_max_force() {
    let mut b = boid(v(0, 0), v(0, 0));
    b.min_velocity = 0;
    b.max_velocity = 2_000_000_000;
    b.max_force = 500_000;
    for gathered in [
        v(i64::MAX, 0),
        v(i64::MIN, i64::MIN),
        v(10_000 * U, -10_000 * U),
        v(500_001, 0),
        v(-300_000, 400_001),
    ] {
        let mut c = b;
        c.acceleration = gathered;
        c.update();
        assert!(c.velocity.length_squared() <= 250_000_000_000, "{:?}", gathered);
        assert_eq!(c.acceleration, v(0, 0));
    }
    let mut c = b;
    c.acceleration = v(-300_000, 400_000);
    c.update();
    assert_eq!(c.velocity, v(-300_000, 400_000));
}

#[test]
fn update_raises_a_slow_boid_to_min_velocity() {
    let mut b = boid(v(0, 0), v(0, 0));
    b.acceleration = v(3, -4);
    b.update();
    assert_eq!(b.velocity, v(300_000, -400_000));
    assert_eq!(b.position, v(0, 0));
}

#[test]
fn update_in_a_band_of_no_width_keeps_the_speed_within_rounding() {
    let mut b = boid(v(0, 0), v(0, 0));
    b.min_velocity = U;
    b.max_velocity = U;
    for gathered in [v(3, -4), v(1, 1), v(-7 * U, 2 * U), v(0, -1), v(123, 456_789)] {
        let mut c = b;
        c.acceleration = gathered;
        c.update();
        let q = c.velocity.length_squared();
        assert!(q < ((U + 2) as u128) * ((U + 2) as u128), "{:?}", gathered);
        assert!(q >= ((U - 3) as u128) * ((U - 3) as u128), "{:?}", gathered);
    }
}

#[test]
fn well_formed_boids_are_told_apart() {
    let b = boid(v(0, 0), v(0, 0));
    assert!(b.is_wf());
    assert!(b.is_rested());
    assert!(b.can_move());
    let mut narrow = b;
    narrow.max_velocity = narrow.min_velocity;
    assert!(narrow.is_wf());
    narrow.max_velocity = narrow.min_velocity - 1;
    assert!(!narrow.is_wf());
    assert!(narrow.is_in_range());
    let mut far = b;
    far.position.x = 1_000_000_000_001;
    assert!(!far.is_wf());
    let mut edge = b;
    edge.position.x = 1_000_000_000_000;
    edge.velocity.x = 1;
    assert!(edge.is_wf());
    assert!(!edge.can_move());
    let mut fast = b;
    fast.velocity.y = -2_147_483_648;
    assert!(!fast.is_wf());
    let mut negative = b;
    negative.max_force = -1;
    assert!(!negative.is_wf());
    let mut loaded = b;
    loaded.acceleration.x = 1_000_000_000_000_000_001;
    assert!(loaded.is_wf());
    assert!(!loaded.is_rested());
}
