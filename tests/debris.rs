use tower_core::debris::block_to_debris;
use tower_core::geometry::{Point, Pose, Rot};
use tower_core::shape::BlockType;
use tower_core::throw::Velocity;

#[test]
fn four_cell_block_bursts_into_four_pieces() {
    let pose = Pose { pos: Point::new(5_000_000, 5_000_000), rot: Rot::identity() };
    let v = Velocity { linvel: Point::new(10, -20), angvel: 3 };
    let d = block_to_debris(BlockType::T, pose, v);
    assert_eq!(d.len(), 4);
    let got: Vec<Point> = d.iter().map(|p| p.pos).collect();
    assert_eq!(
        got,
        vec![
            Point::new(4_000_000, 4_500_000),
            Point::new(5_000_000, 4_500_000),
            Point::new(6_000_000, 4_500_000),
            Point::new(5_000_000, 5_500_000),
        ]
    );
    assert!(d.iter().all(|p| p.velocity == v && p.rot == pose.rot));
}

#[test]
fn debris_follows_block_rotation() {
    let pose = Pose { pos: Point::new(0, 0), rot: Rot::identity().quarter_turn() };
    let v = Velocity { linvel: Point::new(0, 0), angvel: 0 };
    let d = block_to_debris(BlockType::I, pose, v);
    let got: Vec<Point> = d.iter().map(|p| p.pos).collect();
    assert_eq!(
        got,
        vec![Point::new(0, -1_500_000), Point::new(0, -500_000), Point::new(0, 500_000), Point::new(0, 1_500_000)]
    );
}

#[test]
fn every_piece_is_at_a_distinct_cell_centre() {
    let pose = Pose { pos: Point::new(0, 0), rot: Rot::identity() };
    let v = Velocity { linvel: Point::new(0, 0), angvel: 0 };
    let d = block_to_debris(BlockType::J, pose, v);
    let got: Vec<Point> = d.iter().map(|p| p.pos).collect();
    assert_eq!(
        got,
        vec![
            Point::new(-1_000_000, 500_000),
            Point::new(-1_000_000, -500_000),
            Point::new(0, -500_000),
            Point::new(1_000_000, -500_000),
        ]
    );
}
