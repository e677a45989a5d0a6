use tower_core::geometry::Point;
use tower_core::magnetic::{calculate_magnetic_impulse, magnetic_impulses, net_magnetic_impulse, MagnetBody, MagneticEffect};

#[test]
fn impulse_falls_off_linearly() {
    let e = MagneticEffect { range: 10_000_000, force: 1_000 };
    let p = calculate_magnetic_impulse(Point::new(0, 0), Point::new(-5_000_000, 0), &e).unwrap();
    assert_eq!(p, Point::new(500, 0));
    let p = calculate_magnetic_impulse(Point::new(0, 0), Point::new(0, 2_000_000), &e).unwrap();
    assert_eq!(p, Point::new(0, -800));
    let p = calculate_magnetic_impulse(Point::new(0, 0), Point::new(3_000_000, 4_000_000), &e).unwrap();
    assert_eq!(p, Point::new(-300, -400));
}

#[test]
fn out_of_range_gives_none_and_zero_distance_no_force() {
    let e = MagneticEffect::new();
    assert_eq!(calculate_magnetic_impulse(Point::new(0, 0), Point::new(10_000_000, 0), &e), None);
    assert_eq!(calculate_magnetic_impulse(Point::new(5, 5), Point::new(5, 5), &e), Some(Point::new(0, 0)));
}

#[test]
fn two_magnets_pull_equal_and_opposite() {
    let a = MagnetBody { pos: Point::new(0, 0), magnet: Some(MagneticEffect::new()) };
    let b = MagnetBody { pos: Point::new(3_000_000, 1_000_000), magnet: Some(MagneticEffect::new()) };
    let ab = calculate_magnetic_impulse(a.pos, b.pos, &MagneticEffect::new()).unwrap();
    let ba = calculate_magnetic_impulse(b.pos, a.pos, &MagneticEffect::new()).unwrap();
    assert_eq!(ab, Point::new(-ba.x, -ba.y));
    let r = magnetic_impulses(&vec![a, b]);
    assert_eq!(r[0], Point::new(-r[1].x, -r[1].y));
    assert!(r[0].x > 0);
}

#[test]
fn field_conserves_momentum() {
    let m = Some(MagneticEffect { range: 8_000_000, force: 5_000 });
    let bodies = vec![
        MagnetBody { pos: Point::new(0, 0), magnet: m },
        MagnetBody { pos: Point::new(2_000_000, 0), magnet: None },
        MagnetBody { pos: Point::new(-1_000_000, 3_000_000), magnet: m },
        MagnetBody { pos: Point::new(50_000_000, 0), magnet: None },
    ];
    let r = magnetic_impulses(&bodies);
    let sx: i64 = r.iter().map(|p| p.x).sum();
    let sy: i64 = r.iter().map(|p| p.y).sum();
    assert_eq!((sx, sy), (0, 0));
    assert_eq!(r[3], Point::new(0, 0));
    assert!(r[1].x < 0);
}

#[test]
fn plain_block_is_pulled_and_magnet_reacts() {
    let magnet = MagnetBody { pos: Point::new(0, 0), magnet: Some(MagneticEffect { range: 10_000_000, force: 1_000 }) };
    let block = MagnetBody { pos: Point::new(5_000_000, 0), magnet: None };
    let bodies = vec![magnet, block];
    assert_eq!(net_magnetic_impulse(&block, &bodies), Point::new(-500, 0));
    assert_eq!(net_magnetic_impulse(&magnet, &bodies), Point::new(500, 0));
}
