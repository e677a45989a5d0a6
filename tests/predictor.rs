use tower_core::ballistic::GRAVITY;
use tower_core::geometry::Point;
use tower_core::magnetic::{MagnetBody, MagneticEffect};
use tower_core::predictor::{predict_unobstructed, CastHit, Motion, Prediction, BARREL_LENGTH, MAX_TICKS};

fn launch(vx: i64, vy: i64) -> Motion {
    Motion { pos: Point::new(0, 0), linvel: Point::new(vx, vy), angle: 0, angvel: 0 }
}

#[test]
fn barrel_exit_after_length_over_speed() {
    let v: i64 = 583_333;
    let p = predict_unobstructed(launch(0, v), 1, None, &vec![]);
    let expected = BARREL_LENGTH as f64 / v as f64;
    assert!((p.state.exits_barrel_after as f64 - expected).abs() <= 1.0);
    assert_eq!(p.state.exits_barrel_after, 6);
    assert_eq!(p.state.barrel_direction, Some(Point::new(0, 1_000_000)));
}

#[test]
fn forecast_stops_at_the_tick_cap() {
    let p = predict_unobstructed(launch(1_000, 200_000), 1, None, &vec![]);
    assert!(p.state.done);
    assert!(!p.state.hit);
    assert_eq!(p.state.tick, MAX_TICKS);
    assert_eq!(p.steps.len(), MAX_TICKS as usize);
    assert_eq!(p.steps[0].tick, 1);
    assert_eq!(p.steps[119].tick, 120);
}

#[test]
fn forecast_follows_semi_implicit_euler() {
    let p = predict_unobstructed(launch(1_000, 200_000), 1, None, &vec![]);
    // after n ticks: y = n·v − g·n(n+1)/2, x = n·vx
    for (i, s) in p.steps.iter().enumerate() {
        let n = (i + 1) as i64;
        assert_eq!(s.pos.x, n * 1_000);
        assert_eq!(s.pos.y, n * 200_000 - GRAVITY * n * (n + 1) / 2);
    }
    assert_eq!(p.state.motion.linvel.y, 200_000 - GRAVITY * 120);
}

#[test]
fn forecast_is_deterministic() {
    let magnets = vec![MagnetBody { pos: Point::new(3_000_000, 2_000_000), magnet: Some(MagneticEffect::new()) }];
    let a = predict_unobstructed(launch(50_000, 100_000), 2, None, &magnets);
    let b = predict_unobstructed(launch(50_000, 100_000), 2, None, &magnets);
    assert_eq!(a.state, b.state);
    assert_eq!(a.steps, b.steps);
}

#[test]
fn magnet_bends_the_path() {
    let magnets = vec![MagnetBody { pos: Point::new(3_000_000, 0), magnet: Some(MagneticEffect::new()) }];
    let free = predict_unobstructed(launch(0, 0), 1, None, &vec![]);
    let pulled = predict_unobstructed(launch(0, 0), 1, None, &magnets);
    assert_eq!(free.steps[0].pos.x, 0);
    assert!(pulled.steps[0].pos.x > 0);
}

#[test]
fn blocking_cast_snaps_to_impact_and_ends() {
    let mut p = Prediction::new(launch(100_000, -50_000));
    p.step(None, 1, None, &vec![]);
    let before = p.state.motion;
    p.step(Some(CastHit { toi: 500_000, blocking: true }), 1, None, &vec![]);
    assert!(p.state.hit);
    assert!(p.state.done);
    assert_eq!(p.steps.len(), 1);
    assert_eq!(p.state.motion.pos.x, before.pos.x + before.linvel.x / 2);
    assert_eq!(p.state.motion.pos.y, before.pos.y + before.linvel.y / 2);
}

#[test]
fn cast_against_falling_block_is_ignored() {
    let mut a = Prediction::new(launch(100_000, 0));
    let mut b = Prediction::new(launch(100_000, 0));
    a.step(Some(CastHit { toi: 0, blocking: false }), 1, None, &vec![]);
    b.step(None, 1, None, &vec![]);
    assert!(!a.state.hit);
    assert_eq!(a.state, b.state);
    assert_eq!(a.steps, b.steps);
}

#[test]
fn forecast_ends_when_leaving_the_world() {
    let world: i64 = 0x100_0000_0000;
    let start = Motion { pos: Point::new(world - 10, 0), linvel: Point::new(1_000, 0), angle: 0, angvel: 0 };
    let p = predict_unobstructed(start, 1, None, &vec![]);
    assert!(p.state.done);
    assert!(!p.state.hit);
    assert_eq!(p.state.tick, 0);
    assert_eq!(p.steps.len(), 0);
}

#[test]
fn rotation_advances_by_angular_velocity() {
    let start = Motion { pos: Point::new(0, 0), linvel: Point::new(0, 0), angle: 10, angvel: 3 };
    let p = predict_unobstructed(start, 1, None, &vec![]);
    assert_eq!(p.steps[0].angle, 13);
    assert_eq!(p.steps[119].angle, 10 + 3 * 120);
}

use tower_core::throw::Aim;

#[test]
fn aim_keeps_barrel_exit_of_forecast() {
    let p = predict_unobstructed(launch(0, 583_333), 1, None, &vec![]);
    let mut aim = Aim::new();
    aim.record_barrel_exit(&p.state);
    assert_eq!(aim.exits_barrel_after, 6);
    assert_eq!(aim.barrel_direction, Some(Point::new(0, 1_000_000)));
    assert_eq!(aim.force, Aim::new().force);
}

use tower_core::lifecycle::LifecycleState;
use tower_core::predictor::is_obstacle;

#[test]
fn only_resting_bodies_are_obstacles() {
    assert!(is_obstacle(false, false, None));
    assert!(is_obstacle(false, false, Some(LifecycleState::Settled)));
    assert!(!is_obstacle(false, false, Some(LifecycleState::Falling)));
    assert!(!is_obstacle(true, false, None));
    assert!(!is_obstacle(false, true, None));
}
