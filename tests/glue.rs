use tower_core::geometry::{Point, Pose, Rot};
use tower_core::glue::{collect_glue_target, compute_bond, settle_glue, GlueEffect, GlueEffectPhase};

fn pose(x: i64, y: i64, c: i64, s: i64) -> Pose {
    Pose { pos: Point::new(x, y), rot: Rot { c, s } }
}

fn targets(e: &GlueEffect) -> Vec<u64> {
    match &e.0 {
        GlueEffectPhase::Gluing { targets } => targets.clone(),
        GlueEffectPhase::Glued => vec![],
    }
}

#[test]
fn same_target_is_recorded_once() {
    let mut e = GlueEffect::new();
    collect_glue_target(&mut e, 7);
    collect_glue_target(&mut e, 7);
    collect_glue_target(&mut e, 9);
    collect_glue_target(&mut e, 7);
    assert_eq!(targets(&e), vec![7, 9]);
}

#[test]
fn touching_same_target_twice_gives_one_bond() {
    let mut e = GlueEffect::new();
    collect_glue_target(&mut e, 4);
    collect_glue_target(&mut e, 4);
    let bonds = settle_glue(&mut e, pose(0, 1_000_000, 1_000_000, 0), &vec![Some(pose(0, 0, 1_000_000, 0))]);
    assert_eq!(bonds.len(), 1);
    assert_eq!(bonds[0].target, 4);
    assert!(matches!(e.0, GlueEffectPhase::Glued));
}

#[test]
fn vanished_target_is_skipped() {
    let mut e = GlueEffect::new();
    collect_glue_target(&mut e, 1);
    collect_glue_target(&mut e, 2);
    collect_glue_target(&mut e, 3);
    let id = pose(0, 0, 1_000_000, 0);
    let bonds = settle_glue(&mut e, id, &vec![Some(id), None, Some(id)]);
    assert_eq!(bonds.iter().map(|b| b.target).collect::<Vec<_>>(), vec![1, 3]);
}

#[test]
fn bonded_block_bonds_no_more() {
    let mut e = GlueEffect::new();
    collect_glue_target(&mut e, 1);
    let id = pose(0, 0, 1_000_000, 0);
    assert_eq!(settle_glue(&mut e, id, &vec![Some(id)]).len(), 1);
    collect_glue_target(&mut e, 2);
    assert_eq!(settle_glue(&mut e, id, &vec![]).len(), 0);
}

#[test]
fn anchor_is_in_the_target_frame() {
    let base = pose(1_000_000, 0, 1_000_000, 0);
    let block = pose(1_000_000, 1_000_000, 1_000_000, 0);
    let b = compute_bond(5, base, block);
    assert_eq!(b.source_anchor, Point::new(0, 0));
    assert_eq!(b.target_anchor, Point::new(0, 1_000_000));
    assert_eq!(b.relative_rotation, Rot { c: 1_000_000, s: 0 });
    // target turned a quarter turn: the offset (0, 1) is its local x axis
    let turned = pose(0, 0, 0, 1_000_000);
    let b = compute_bond(5, turned, pose(0, 1_000_000, 1_000_000, 0));
    assert_eq!(b.target_anchor, Point::new(1_000_000, 0));
    assert_eq!(b.relative_rotation, Rot { c: 0, s: 1_000_000 });
}
