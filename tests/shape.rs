use tower_core::geometry::Point;
use tower_core::shape::BlockType;

const ALL: [BlockType; 7] = [BlockType::I, BlockType::O, BlockType::T, BlockType::S, BlockType::Z, BlockType::J, BlockType::L];

#[test]
fn every_form_has_four_cells() {
    for b in ALL {
        assert_eq!(b.get_shape().len(), 4);
    }
}

#[test]
fn shapes_match_their_forms() {
    let c = 1_000_000;
    assert_eq!(BlockType::I.get_shape(), vec![Point::new(0, 0), Point::new(c, 0), Point::new(2 * c, 0), Point::new(3 * c, 0)]);
    assert_eq!(BlockType::L.get_shape(), vec![Point::new(0, 0), Point::new(c, 0), Point::new(2 * c, 0), Point::new(2 * c, c)]);
    assert_eq!(BlockType::J.get_shape(), vec![Point::new(0, c), Point::new(0, 0), Point::new(c, 0), Point::new(2 * c, 0)]);
    assert_eq!(BlockType::Z.get_shape()[0], Point::new(0, c));
}

#[test]
fn sizes_and_centres() {
    assert_eq!((BlockType::I.block_width(), BlockType::I.block_height()), (4, 1));
    assert_eq!((BlockType::O.block_width(), BlockType::O.block_height()), (2, 2));
    assert_eq!((BlockType::T.width(), BlockType::T.height()), (3_000_000, 2_000_000));
    assert_eq!(BlockType::I.get_center(), Point::new(1_500_000, 0));
    assert_eq!(BlockType::O.get_center(), Point::new(500_000, 500_000));
    assert_eq!(BlockType::J.get_center(), Point::new(1_000_000, 500_000));
}

#[test]
fn colliders_cover_the_forms() {
    let i = BlockType::I.build_collider();
    assert_eq!(i.len(), 1);
    assert_eq!((i[0].half_width, i[0].half_height), (2_000_000, 500_000));
    let l = BlockType::L.build_collider();
    assert_eq!(l.len(), 2);
    assert_eq!(l[0].offset, Point::new(0, -500_000));
    assert_eq!((l[0].half_width, l[0].half_height), (1_500_000, 500_000));
    assert_eq!(l[1].offset, Point::new(1_000_000, 500_000));
    let j = BlockType::J.build_collider();
    assert_eq!(j[1].offset, Point::new(-1_000_000, 500_000));
}

#[test]
fn letters_name_forms() {
    let s: String = ALL.iter().map(|b| b.letter()).collect();
    assert_eq!(s, "IOTSZJL");
}

#[test]
fn random_form_is_one_of_seven() {
    for _ in 0..50 {
        assert!(ALL.contains(&BlockType::random()));
    }
}

#[test]
fn colliders_cover_exactly_the_centred_cells() {
    for b in ALL {
        let centre = b.get_center();
        let parts = b.build_collider();
        // every cell centre lies inside a part
        for c in b.get_shape() {
            let (x, y) = (c.x - centre.x, c.y - centre.y);
            assert!(parts.iter().any(|p| (x - p.offset.x).abs() < p.half_width && (y - p.offset.y).abs() < p.half_height));
        }
        // the parts cover four unit cells in all
        let area: i64 = parts.iter().map(|p| (2 * p.half_width / 1_000) * (2 * p.half_height / 1_000)).sum();
        assert_eq!(area, 4 * 1_000 * 1_000);
    }
}

#[test]
fn forms_by_index() {
    for (i, b) in ALL.iter().enumerate() {
        assert_eq!(BlockType::from_index(i as u32), *b);
    }
}
