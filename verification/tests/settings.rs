use superboids::agent::Bounds;
use superboids::input::{
    can_press, keyboard_input_system, mouse_button_input_system, KeyPresses,
};
use superboids::settings::{BoidSettings, Weight, WEIGHT_LIMIT};
use superboids::timer::GameTimer;
use superboids::ui::{show_stats, stat_text};
use superboids::vector::Vec2;

/// The weight 1.
const W: i64 = 1_000_000;

fn no_keys() -> KeyPresses {
    KeyPresses { q: false, a: false, w: false, s: false, e: false, d: false }
}

#[test]
fn default_settings() {
    let s = BoidSettings::default();
    assert_eq!(s, BoidSettings { alignment: 5 * W, cohesion: W, separation: 5 * W });
    assert!(s.is_wf());
    assert_eq!(s.get(Weight::Alignment), 5 * W);
    assert_eq!(s.get(Weight::Cohesion), W);
    assert_eq!(s.get(Weight::Separation), 5 * W);
}

#[test]
fn adjust_weight_moves_one_weight() {
    let mut s = BoidSettings::default();
    s.adjust_weight(Weight::Cohesion, 3 * W);
    assert_eq!(s, BoidSettings { alignment: 5 * W, cohesion: 4 * W, separation: 5 * W });
    s.adjust_weight(Weight::Separation, -7 * W);
    assert_eq!(s, BoidSettings { alignment: 5 * W, cohesion: 4 * W, separation: -2 * W });
    s.adjust_weight(Weight::Alignment, -5 * W);
    assert_eq!(s, BoidSettings { alignment: 0, cohesion: 4 * W, separation: -2 * W });
    // a quarter down
    s.adjust_weight(Weight::Alignment, -W / 4);
    assert_eq!(s, BoidSettings { alignment: -250_000, cohesion: 4 * W, separation: -2 * W });
}

#[test]
fn adjust_weight_does_not_clamp() {
    let mut s = BoidSettings { alignment: WEIGHT_LIMIT, cohesion: 0, separation: -WEIGHT_LIMIT };
    assert!(s.is_wf());
    s.adjust_weight(Weight::Alignment, W);
    assert_eq!(s.alignment, WEIGHT_LIMIT + W);
    s.adjust_weight(Weight::Separation, -W);
    assert_eq!(s.separation, -WEIGHT_LIMIT - W);
    // the weights are weights still, though a tick does not take them
    assert!(!s.is_wf());
    s.adjust_weight(Weight::Alignment, -W);
    s.adjust_weight(Weight::Separation, W);
    assert!(s.is_wf());
    let mut s = BoidSettings { alignment: i64::MAX - 1, cohesion: i64::MIN, separation: 0 };
    assert!(s.fits(Weight::Alignment, 1));
    assert!(!s.fits(Weight::Alignment, 2));
    assert!(!s.fits(Weight::Cohesion, -1));
    assert!(s.fits(Weight::Cohesion, i64::MAX));
    s.adjust_weight(Weight::Alignment, 1);
    assert_eq!(s.alignment, i64::MAX);
}

#[test]
fn keys_move_the_weights_by_one() {
    let mut s = BoidSettings::default();
    keyboard_input_system(&no_keys(), &mut s);
    assert_eq!(s, BoidSettings::default());
    keyboard_input_system(&KeyPresses { q: true, ..no_keys() }, &mut s);
    assert_eq!(s, BoidSettings { alignment: 6 * W, cohesion: W, separation: 5 * W });
    keyboard_input_system(&KeyPresses { a: true, s: true, e: true, ..no_keys() }, &mut s);
    assert_eq!(s, BoidSettings { alignment: 5 * W, cohesion: 0, separation: 6 * W });
    keyboard_input_system(&KeyPresses { w: true, d: true, ..no_keys() }, &mut s);
    assert_eq!(s, BoidSettings { alignment: 5 * W, cohesion: W, separation: 5 * W });
    // both keys of a weight at once cancel
    keyboard_input_system(
        &KeyPresses { q: true, a: true, w: true, s: true, e: true, d: true },
        &mut s,
    );
    assert_eq!(s, BoidSettings { alignment: 5 * W, cohesion: W, separation: 5 * W });
    // weights go below zero
    for _ in 0..3 {
        keyboard_input_system(&KeyPresses { s: true, ..no_keys() }, &mut s);
    }
    assert_eq!(s.cohesion, -2 * W);
}

#[test]
fn keys_do_not_clamp_the_weights() {
    let mut s = BoidSettings { alignment: WEIGHT_LIMIT, cohesion: 0, separation: 0 };
    let both = KeyPresses { q: true, a: true, ..no_keys() };
    assert!(can_press(&both, &s));
    keyboard_input_system(&both, &mut s);
    assert_eq!(s.alignment, WEIGHT_LIMIT);
    let up = KeyPresses { q: true, ..no_keys() };
    keyboard_input_system(&up, &mut s);
    assert_eq!(s.alignment, WEIGHT_LIMIT + W);
    keyboard_input_system(&up, &mut s);
    assert_eq!(s.alignment, WEIGHT_LIMIT + 2 * W);
}

#[test]
fn keys_that_leave_the_integers_are_told() {
    let s = BoidSettings { alignment: i64::MAX, cohesion: 0, separation: i64::MIN + W };
    assert!(!can_press(&KeyPresses { q: true, ..no_keys() }, &s));
    assert!(can_press(&KeyPresses { q: true, a: true, ..no_keys() }, &s));
    assert!(can_press(&KeyPresses { a: true, d: true, ..no_keys() }, &s));
    assert!(can_press(&no_keys(), &s));
    let s = BoidSettings { alignment: 0, cohesion: 0, separation: i64::MIN + W - 1 };
    assert!(!can_press(&KeyPresses { d: true, ..no_keys() }, &s));
}

#[test]
fn pointer_spawns_under_the_cursor() {
    assert!(mouse_button_input_system(false, Some(Vec2 { x: 1, y: 2 })).is_none());
    assert!(mouse_button_input_system(true, None).is_none());
    assert!(mouse_button_input_system(false, None).is_none());
    let boid = mouse_button_input_system(true, Some(Vec2 { x: 1_500, y: -2_500 })).unwrap();
    assert_eq!(boid.position, Vec2 { x: 1_500, y: -2_500 });
    assert!(boid.velocity.x.abs() <= 500_000 && boid.velocity.y.abs() <= 500_000);
    assert!(boid.acceleration.x.abs() <= 500_000 && boid.acceleration.y.abs() <= 500_000);
    assert_eq!(
        (boid.max_force, boid.min_velocity, boid.max_velocity),
        (500_000, 500_000, 1_000_000)
    );
}

#[test]
fn timer_counts_whole_steps() {
    let mut t = GameTimer::new(10_000_000);
    assert_eq!(t.tick(4_000_000), 0);
    assert_eq!(t.elapsed, 4_000_000);
    assert_eq!(t.tick(5_999_999), 0);
    assert_eq!(t.tick(1), 1);
    assert_eq!(t.elapsed, 0);
    assert_eq!(t.tick(25_000_000), 2);
    assert_eq!(t.elapsed, 5_000_000);
    assert_eq!(t.tick(0), 0);
    assert_eq!(t.elapsed, 5_000_000);
    assert_eq!(t.step, 10_000_000);
}

#[test]
fn timer_takes_the_largest_delta() {
    let mut t = GameTimer::new(u64::MAX);
    assert_eq!(t.tick(u64::MAX - 1), 0);
    assert_eq!(t.tick(u64::MAX), 1);
    assert_eq!(t.elapsed, u64::MAX - 1);
    let mut t = GameTimer::new(1);
    assert_eq!(t.tick(u64::MAX), u64::MAX);
    assert_eq!(t.elapsed, 0);
    let t = GameTimer::new(0);
    assert_eq!(t.step, 1);
}

#[test]
fn stats_show_the_three_weights() {
    let lines = show_stats(&BoidSettings::default());
    assert_eq!(lines, vec!["Alignment: 5", "Cohesion: 1", "Separation: 5"]);
    let lines =
        show_stats(&BoidSettings { alignment: -12 * W, cohesion: 0, separation: 1_000_000 * W });
    assert_eq!(lines, vec!["Alignment: -12", "Cohesion: 0", "Separation: 1000000"]);
    let lines =
        show_stats(&BoidSettings { alignment: -250_000, cohesion: 1_500_000, separation: 1 });
    assert_eq!(lines, vec!["Alignment: -0.25", "Cohesion: 1.5", "Separation: 0.000001"]);
}

#[test]
fn stat_text_writes_decimal() {
    assert_eq!(stat_text("w", 0), "w: 0");
    assert_eq!(stat_text("w", 9 * W), "w: 9");
    assert_eq!(stat_text("w", 10 * W), "w: 10");
    assert_eq!(stat_text("w", 1_234_567_890 * W), "w: 1234567890");
    assert_eq!(stat_text("w", 100_000), "w: 0.1");
    assert_eq!(stat_text("w", 10), "w: 0.00001");
    assert_eq!(stat_text("w", 120_030), "w: 0.12003");
    assert_eq!(stat_text("w", 999_999), "w: 0.999999");
    assert_eq!(stat_text("w", -7_070_000), "w: -7.07");
    assert_eq!(stat_text("w", i64::MAX), "w: 9223372036854.775807");
    assert_eq!(stat_text("w", i64::MIN), "w: -9223372036854.775808");
    assert_eq!(stat_text("", -7 * W), ": -7");
}

#[test]
fn bounds_are_told_apart() {
    assert!(Bounds {
        left: -640_000_000,
        right: 640_000_000,
        bottom: -360_000_000,
        top: 360_000_000
    }
    .is_wf());
    assert!(Bounds { left: 0, right: 0, bottom: 0, top: 0 }.is_wf());
    assert!(!Bounds { left: 1, right: 0, bottom: 0, top: 0 }.is_wf());
    assert!(Bounds { left: 0, right: 0, bottom: 0, top: 1_000_000_000_000 }.is_wf());
    assert!(!Bounds { left: 0, right: 0, bottom: 0, top: 1_000_000_000_001 }.is_wf());
}
