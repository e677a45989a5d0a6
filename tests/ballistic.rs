use tower_core::ballistic::{calculate_shot_for_target, minimum_launch_speed, GRAVITY, MAX_SPEED};
use tower_core::geometry::Point;
use tower_core::throw::{update_aim_for_target, Aim};

const CELL: f64 = 1_000_000.0;

/// The launch velocity of unit direction `u` (scaled to `CELL`) at `speed`.
fn velocity(u: Point, speed: u32) -> (f64, f64) {
    (u.x as f64 * speed as f64 / CELL, u.y as f64 * speed as f64 / CELL)
}

/// Height of the ideal parabola with launch velocity `v` when it passes the horizontal offset `x`.
fn height_at(v: (f64, f64), x: f64) -> f64 {
    let t = x / v.0;
    v.1 * t - GRAVITY as f64 * t * t / 2.0
}

fn unit_length(u: Point) -> f64 {
    ((u.x as f64).powi(2) + (u.y as f64).powi(2)).sqrt()
}

#[test]
fn direct_hit_lands_on_target() {
    let launch = Point::new(0, 0);
    let target = Point::new(10_000_000, 0);
    let speed = minimum_launch_speed(launch, target).expect("reachable");
    let u = calculate_shot_for_target(launch, target, speed, true).expect("solvable");
    assert!((unit_length(u) - CELL).abs() <= 2.0);
    let v = velocity(u, speed);
    assert!(v.0 > 0.0);
    let t_hit = target.x as f64 / v.0;
    let y = height_at(v, target.x as f64);
    assert!(y.abs() <= 0.01 * CELL, "landed {} micro-cells off", y);
    let mut t = 0.5;
    while t < t_hit {
        let yt = v.1 * t - GRAVITY as f64 * t * t / 2.0;
        assert!(yt >= 0.0);
        t += 0.5;
    }
}

#[test]
fn reachable_target_above_is_hit_on_both_arcs() {
    let launch = Point::new(-2_000_000, 1_000_000);
    let target = Point::new(3_000_000, 4_000_000);
    let speed = 400_000;
    for direct in [true, false] {
        let u = calculate_shot_for_target(launch, target, speed, direct).expect("reachable");
        let y = height_at(velocity(u, speed), (target.x - launch.x) as f64);
        assert!((y - (target.y - launch.y) as f64).abs() <= 0.01 * CELL);
    }
    let low = calculate_shot_for_target(launch, target, speed, true).unwrap();
    let high = calculate_shot_for_target(launch, target, speed, false).unwrap();
    assert!(low.y < high.y);
}

#[test]
fn unreachable_target_gives_none() {
    let launch = Point::new(0, 0);
    let target = Point::new(50_000_000, 0);
    assert_eq!(calculate_shot_for_target(launch, target, 1_000, true), None);
    assert_eq!(calculate_shot_for_target(launch, target, 1_000, false), None);
    assert_eq!(calculate_shot_for_target(launch, target, 0, false), None);
}

#[test]
fn target_straight_above_needs_no_division() {
    let launch = Point::new(0, 0);
    let target = Point::new(0, 5_000_000);
    for direct in [true, false] {
        let u = calculate_shot_for_target(launch, target, 300_000, direct).expect("reachable");
        assert_eq!(u, Point::new(0, 1_000_000));
    }
    // 2·g·y = 5.45e10: speeds below its root (233 452) cannot rise that high
    assert_eq!(calculate_shot_for_target(launch, target, 233_000, true), None);
}

#[test]
fn aim_straight_up_gets_enough_speed() {
    let mut aim = Aim::new();
    let launch = Point::new(0, 0);
    let target = Point::new(0, 5_000_000);
    update_aim_for_target(&mut aim, launch, target);
    assert_eq!(aim.direction, Point::new(0, 1_000_000));
    assert!(aim.force as i64 * aim.force as i64 >= 2 * GRAVITY * 5_000_000);
    assert!((aim.force as i64 - 100) * (aim.force as i64 - 100) < 2 * GRAVITY * 5_000_000);
}

#[test]
fn shot_at_launch_point_points_along_x() {
    let p = Point::new(7, 7);
    let u = calculate_shot_for_target(p, p, 0, true).expect("zero offset is reachable");
    assert_eq!(u, Point::new(1_000_000, 0));
}

#[test]
fn shot_is_a_unit_direction() {
    let launch = Point::new(0, 0);
    let target = Point::new(8_000_000, 2_000_000);
    for direct in [true, false] {
        let u = calculate_shot_for_target(launch, target, 500_000, direct).unwrap();
        assert!((unit_length(u) - CELL).abs() <= 2.0);
    }
}

#[test]
fn minimum_speed_is_the_first_reaching_grid_speed() {
    let launch = Point::new(0, 0);
    let target = Point::new(10_000_000, 0);
    let speed = minimum_launch_speed(launch, target).unwrap();
    assert_eq!(speed % 100, 0);
    assert!(calculate_shot_for_target(launch, target, speed, true).is_some());
    assert!(calculate_shot_for_target(launch, target, speed - 100, true).is_none());
    assert!(speed <= MAX_SPEED);
}

#[test]
fn aim_follows_reachable_target() {
    let mut aim = Aim::new();
    let launch = Point::new(0, 0);
    let target = Point::new(10_000_000, 0);
    update_aim_for_target(&mut aim, launch, target);
    let speed = minimum_launch_speed(launch, target).unwrap();
    assert_eq!(aim.force, speed);
    assert!(aim.direction.x > 0 && aim.direction.y > 0);
    let len = ((aim.direction.x as f64).powi(2) + (aim.direction.y as f64).powi(2)).sqrt();
    assert!((len - CELL).abs() <= 2.0);
}

#[test]
fn force_factor_raises_the_speed() {
    let mut aim = Aim::new();
    aim.force_factor = 500;
    let launch = Point::new(0, 0);
    let target = Point::new(10_000_000, 0);
    update_aim_for_target(&mut aim, launch, target);
    let speed = minimum_launch_speed(launch, target).unwrap();
    assert_eq!(aim.force, speed + speed * 500 / 1000);
}

#[test]
fn aim_is_kept_when_target_is_out_of_reach() {
    let mut aim = Aim::new();
    let before = aim;
    update_aim_for_target(&mut aim, Point::new(0, 0), Point::new(500_000_000, 0));
    assert_eq!(aim, before);
}

#[test]
fn aim_velocity_scales_direction_by_force() {
    let mut aim = Aim::new();
    aim.direction = Point::new(600_000, 800_000);
    aim.force = 1_000;
    aim.rotation = -7;
    let v = aim.velocity();
    assert_eq!(v.linvel, Point::new(600, 800));
    assert_eq!(v.angvel, -7);
}

use tower_core::throw::{adjust_force_factor, update_aim_keys, AimKeys};

fn no_keys() -> AimKeys {
    AimKeys { left: false, right: false, up: false, down: false, spin_left: false, spin_right: false }
}

#[test]
fn left_key_turns_direction_counter_clockwise() {
    let mut aim = Aim::new();
    aim.direction = Point::new(1_000_000, 0);
    update_aim_keys(&mut aim, AimKeys { left: true, ..no_keys() });
    assert_eq!(aim.direction, Point::new(999_987, 5_000));
    update_aim_keys(&mut aim, AimKeys { right: true, ..no_keys() });
    assert!(aim.direction.y.abs() <= 1);
    assert!(aim.direction.x <= 1_000_000 && aim.direction.x >= 999_970);
}

#[test]
fn turning_never_lengthens_the_direction() {
    let mut aim = Aim::new();
    for _ in 0..2000 {
        update_aim_keys(&mut aim, AimKeys { left: true, ..no_keys() });
    }
    let len2 = (aim.direction.x as f64).powi(2) + (aim.direction.y as f64).powi(2);
    assert!(len2 <= 1e12 + 1.0);
}

#[test]
fn force_and_spin_keys() {
    let mut aim = Aim::new();
    update_aim_keys(&mut aim, AimKeys { up: true, spin_left: true, ..no_keys() });
    assert_eq!(aim.force_factor, 2_000);
    assert_eq!(aim.rotation, 208);
    update_aim_keys(&mut aim, AimKeys { down: true, spin_right: true, ..no_keys() });
    update_aim_keys(&mut aim, AimKeys { down: true, spin_right: true, ..no_keys() });
    assert_eq!(aim.force_factor, -2_000);
    assert_eq!(aim.rotation, -208);
    aim.force_factor = i32::MAX - 1;
    update_aim_keys(&mut aim, AimKeys { up: true, ..no_keys() });
    assert_eq!(aim.force_factor, i32::MAX);
}

#[test]
fn mouse_wheel_adjusts_force_factor() {
    let mut aim = Aim::new();
    adjust_force_factor(&mut aim, 50);
    adjust_force_factor(&mut aim, -20);
    assert_eq!(aim.force_factor, 30);
    adjust_force_factor(&mut aim, i32::MIN);
    adjust_force_factor(&mut aim, i32::MIN);
    assert_eq!(aim.force_factor, i32::MIN);
}
