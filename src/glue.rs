use vstd::prelude::*;

use crate::fixed::{div_trunc, div_trunc_i128, CELL};
use crate::geometry::{pose_ok, Point, Pose, Rot};

verus! {

/// Where a glue block is in its bonding: gathering the bodies it touches while it falls, or
/// done once it has bonded.
#[derive(Debug)]
pub enum GlueEffectPhase {
    Gluing { targets: Vec<u64> },
    Glued,
}

/// The glue effect a block carries.
#[derive(Debug)]
pub struct GlueEffect(pub GlueEffectPhase);

/// A rigid joint between a settled glue block and one body it touched: the anchor on the
/// block (its own origin), the anchor on the target in the target's frame, and the rotation
/// from the block's frame to the target's.
#[derive(Clone, Copy, Debug, PartialEq, Eq, Structural)]
pub struct GlueBond {
    pub target: u64,
    pub source_anchor: Point,
    pub target_anchor: Point,
    pub relative_rotation: Rot,
}

/// The target list after a contact with `hit`: unchanged if `hit` is on it, else extended.
pub open spec fn with_target(targets: Seq<u64>, hit: u64) -> Seq<u64> {
    if targets.contains(hit) {
        targets
    } else {
        targets.push(hit)
    }
}

/// The offset of `p` from the base's translation, expressed in the base's frame.
pub open spec fn local_anchor(base: Pose, p: Point) -> (int, int) {
    let vx = p.x - base.pos.x;
    let vy = p.y - base.pos.y;
    (
        div_trunc(base.rot.c * vx + base.rot.s * vy, CELL as int),
        div_trunc(base.rot.c * vy - base.rot.s * vx, CELL as int),
    )
}

/// The rotation by the base's angle less the block's angle, as cosine and sine.
pub open spec fn relative_rotation(base: Rot, block: Rot) -> (int, int) {
    (
        div_trunc(base.c * block.c + base.s * block.s, CELL as int),
        div_trunc(base.s * block.c - base.c * block.s, CELL as int),
    )
}

/// `b` is the bond of a block at `block` to target `target` at `base`.
pub open spec fn is_bond(b: GlueBond, target: u64, base: Pose, block: Pose) -> bool {
    &&& b.target == target
    &&& b.source_anchor == Point { x: 0, y: 0 }
    &&& (b.target_anchor.x as int, b.target_anchor.y as int) == local_anchor(base, block.pos)
    &&& (b.relative_rotation.c as int, b.relative_rotation.s as int) == relative_rotation(
        base.rot,
        block.rot,
    )
}

/// The targets whose pose is known, each with that pose, in order.
pub open spec fn found_targets(targets: Seq<u64>, poses: Seq<Option<Pose>>) -> Seq<(u64, Pose)>
    decreases targets.len(),
{
    if targets.len() == 0 {
        Seq::empty()
    } else {
        let rest = found_targets(targets.drop_last(), poses.take(targets.len() - 1));
        match poses[targets.len() - 1] {
            Some(p) => rest.push((targets.last(), p)),
            None => rest,
        }
    }
}

/// A gluing block's target list holds no body twice.
pub open spec fn glue_ok(effect: &GlueEffect) -> bool {
    effect.0 matches GlueEffectPhase::Gluing { targets } ==> targets@.no_duplicates()
}

/// Records a contact of a gluing block with `hit`; a body already recorded is not added again,
/// and a block that has bonded records nothing.
pub fn collect_glue_target(effect: &mut GlueEffect, hit: u64)
    requires
        glue_ok(old(effect)),
    ensures
        glue_ok(final(effect)),
        old(effect).0 is Glued ==> final(effect).0 is Glued,
        old(effect).0 matches GlueEffectPhase::Gluing { targets } ==> (final(effect).0 matches GlueEffectPhase::Gluing {
            targets: t2,
        } && t2@ == with_target(targets@, hit)),
{
    match &mut effect.0 {
        GlueEffectPhase::Gluing { targets } => {
            let mut i: usize = 0;
            let mut found = false;
            while i < targets.len()
                invariant
                    i <= targets@.len(),
                    found == (exists|j: int| 0 <= j < i && targets@[j] == hit),
                decreases targets@.len() - i,
            {
                if targets[i] == hit {
                    found = true;
                }
                i = i + 1;
            }
            proof {
                lemma_with_target_no_duplicates(targets@, hit);
            }
            if !found {
                targets.push(hit);
            } else {
                assert(targets@.contains(hit));
            }
        },
        GlueEffectPhase::Glued => {},
    }
}

/// Recording a target keeps a list without repeats free of repeats, and holds the target.
pub proof fn lemma_with_target_no_duplicates(targets: Seq<u64>, hit: u64)
    requires
        targets.no_duplicates(),
    ensures
        with_target(targets, hit).no_duplicates(),
        with_target(targets, hit).contains(hit),
{
    let t = with_target(targets, hit);
    if !targets.contains(hit) {
        assert(t[t.len() - 1] == hit);
        assert forall|i: int, j: int| 0 <= i < j < t.len() implies t[i] != t[j] by {
            if j == t.len() - 1 {
                assert(targets[i] == t[i]);
            }
        }
    }
}


/// The bond of a block at `block` to the target `target` standing at `base`.
pub fn compute_bond(target: u64, base: Pose, block: Pose) -> (r: GlueBond)
    requires
        pose_ok(base),
        pose_ok(block),
    ensures
        is_bond(r, target, base, block),
{
    let vx = block.pos.x as i128 - base.pos.x as i128;
    let vy = block.pos.y as i128 - base.pos.y as i128;
    let c = base.rot.c as i128;
    let s = base.rot.s as i128;
    assert(-0x200_0000_0000 * 0x10_0000 <= c * vx <= 0x200_0000_0000 * 0x10_0000) by (nonlinear_arith)
        requires
            -0x200_0000_0000 <= vx <= 0x200_0000_0000,
            -0x10_0000 <= c <= 0x10_0000,
    ;
    assert(-0x200_0000_0000 * 0x10_0000 <= s * vy <= 0x200_0000_0000 * 0x10_0000) by (nonlinear_arith)
        requires
            -0x200_0000_0000 <= vy <= 0x200_0000_0000,
            -0x10_0000 <= s <= 0x10_0000,
    ;
    assert(-0x200_0000_0000 * 0x10_0000 <= c * vy <= 0x200_0000_0000 * 0x10_0000) by (nonlinear_arith)
        requires
            -0x200_0000_0000 <= vy <= 0x200_0000_0000,
            -0x10_0000 <= c <= 0x10_0000,
    ;
    assert(-0x200_0000_0000 * 0x10_0000 <= s * vx <= 0x200_0000_0000 * 0x10_0000) by (nonlinear_arith)
        requires
            -0x200_0000_0000 <= vx <= 0x200_0000_0000,
            -0x10_0000 <= s <= 0x10_0000,
    ;
    let ax = div_trunc_i128(c * vx + s * vy, CELL as i128);
    let ay = div_trunc_i128(c * vy - s * vx, CELL as i128);
    let bc = block.rot.c as i128;
    let bs = block.rot.s as i128;
    assert(-0x100_0000_0000 <= c * bc <= 0x100_0000_0000) by (nonlinear_arith)
        requires
            -0x10_0000 <= c <= 0x10_0000,
            -0x10_0000 <= bc <= 0x10_0000,
    ;
    assert(-0x100_0000_0000 <= s * bs <= 0x100_0000_0000) by (nonlinear_arith)
        requires
            -0x10_0000 <= s <= 0x10_0000,
            -0x10_0000 <= bs <= 0x10_0000,
    ;
    assert(-0x100_0000_0000 <= s * bc <= 0x100_0000_0000) by (nonlinear_arith)
        requires
            -0x10_0000 <= s <= 0x10_0000,
            -0x10_0000 <= bc <= 0x10_0000,
    ;
    assert(-0x100_0000_0000 <= c * bs <= 0x100_0000_0000) by (nonlinear_arith)
        requires
            -0x10_0000 <= c <= 0x10_0000,
            -0x10_0000 <= bs <= 0x10_0000,
    ;
    let rc = div_trunc_i128(c * bc + s * bs, CELL as i128);
    let rs = div_trunc_i128(s * bc - c * bs, CELL as i128);
    proof {
        crate::fixed::lemma_div_trunc_bound(c * vx + s * vy, CELL as int, 0x4000_0000_0000_0000int);
        crate::fixed::lemma_div_trunc_bound(c * vy - s * vx, CELL as int, 0x4000_0000_0000_0000int);
        crate::fixed::lemma_div_trunc_bound(c * bc + s * bs, CELL as int, 0x200_0000_0000int);
        crate::fixed::lemma_div_trunc_bound(s * bc - c * bs, CELL as int, 0x200_0000_0000int);
    }
    GlueBond {
        target,
        source_anchor: Point { x: 0, y: 0 },
        target_anchor: Point { x: ax as i64, y: ay as i64 },
        relative_rotation: Rot { c: rc as i64, s: rs as i64 },
    }
}

/// Bonds a block that has just settled at `pose` to every body it touched while gluing, and
/// ends its gluing. `target_poses[i]` is where the i-th recorded target stands, `None` for
/// one that no longer exists, which is skipped. A block that has bonded already bonds no more.
pub fn settle_glue(effect: &mut GlueEffect, pose: Pose, target_poses: &Vec<Option<Pose>>) -> (r: Vec<
    GlueBond,
>)
    requires
        pose_ok(pose),
        forall|i: int|
            0 <= i < target_poses@.len() ==> (#[trigger] target_poses@[i] matches Some(p) ==> pose_ok(p)),
        old(effect).0 matches GlueEffectPhase::Gluing { targets } ==> targets@.len()
            == target_poses@.len(),
        glue_ok(old(effect)),
    ensures
        final(effect).0 is Glued,
        forall|i: int, j: int| 0 <= i < j < r@.len() ==> (#[trigger] r@[i]).target != (#[trigger] r@[j]).target,
        old(effect).0 is Glued ==> r@.len() == 0,
        old(effect).0 matches GlueEffectPhase::Gluing { targets } ==> {
            let f = found_targets(targets@, target_poses@);
            &&& r@.len() == f.len()
            &&& forall|i: int| 0 <= i < f.len() ==> is_bond(#[trigger] r@[i], f[i].0, f[i].1, pose)
        },
{
    let mut bonds: Vec<GlueBond> = Vec::new();
    match &effect.0 {
        GlueEffectPhase::Gluing { targets } => {
            let mut i: usize = 0;
            while i < targets.len()
                invariant
                    pose_ok(pose),
                    targets@.len() == target_poses@.len(),
                    forall|k: int|
                        0 <= k < target_poses@.len() ==> (#[trigger] target_poses@[k] matches Some(p)
                            ==> pose_ok(p)),
                    i <= targets@.len(),
                    ({
                        let f = found_targets(targets@.take(i as int), target_poses@.take(i as int));
                        &&& bonds@.len() == f.len()
                        &&& forall|k: int|
                            0 <= k < f.len() ==> is_bond(#[trigger] bonds@[k], f[k].0, f[k].1, pose)
                    }),
                decreases targets@.len() - i,
            {
                let ghost ts = targets@.take(i as int + 1);
                let ghost ps = target_poses@.take(i as int + 1);
                assert(ts.drop_last() =~= targets@.take(i as int));
                assert(ps.take(i as int) =~= target_poses@.take(i as int));
                match target_poses[i] {
                    Some(p) => {
                        let b = compute_bond(targets[i], p, pose);
                        bonds.push(b);
                    },
                    None => {},
                }
                i = i + 1;
            }
            assert(targets@.take(targets@.len() as int) =~= targets@);
            assert(target_poses@.take(target_poses@.len() as int) =~= target_poses@);
            proof {
                lemma_found_distinct(targets@, target_poses@);
            }
        },
        GlueEffectPhase::Glued => {},
    }
    effect.0 = GlueEffectPhase::Glued;
    bonds
}


proof fn lemma_found_from_targets(targets: Seq<u64>, poses: Seq<Option<Pose>>)
    requires
        poses.len() == targets.len(),
    ensures
        forall|i: int|
            0 <= i < found_targets(targets, poses).len() ==> targets.contains(
                (#[trigger] found_targets(targets, poses)[i]).0,
            ),
    decreases targets.len(),
{
    if targets.len() > 0 {
        let rest = targets.drop_last();
        let ps = poses.take(targets.len() - 1);
        lemma_found_from_targets(rest, ps);
        assert forall|i: int|
            0 <= i < found_targets(targets, poses).len() implies targets.contains(
                (#[trigger] found_targets(targets, poses)[i]).0,
            ) by {
            let f = found_targets(rest, ps);
            if i < f.len() {
                let k = choose|k: int| 0 <= k < rest.len() && rest[k] == f[i].0;
                assert(targets[k] == f[i].0);
            } else {
                assert(targets[targets.len() - 1] == found_targets(targets, poses)[i].0);
            }
        }
    }
}

/// The bonds made from a target list without repeats name each target at most once.
proof fn lemma_found_distinct(targets: Seq<u64>, poses: Seq<Option<Pose>>)
    requires
        poses.len() == targets.len(),
        targets.no_duplicates(),
    ensures
        forall|i: int, j: int|
            0 <= i < j < found_targets(targets, poses).len() ==> (#[trigger] found_targets(
                targets,
                poses,
            )[i]).0 != (#[trigger] found_targets(targets, poses)[j]).0,
    decreases targets.len(),
{
    if targets.len() > 0 {
        let rest = targets.drop_last();
        let ps = poses.take(targets.len() - 1);
        assert(rest.no_duplicates());
        lemma_found_distinct(rest, ps);
        lemma_found_from_targets(rest, ps);
        let f = found_targets(rest, ps);
        assert forall|i: int, j: int|
            0 <= i < j < found_targets(targets, poses).len() implies (#[trigger] found_targets(
                targets,
                poses,
            )[i]).0 != (#[trigger] found_targets(targets, poses)[j]).0 by {
            if j >= f.len() {
                let k = choose|k: int| 0 <= k < rest.len() && rest[k] == f[i].0;
                assert(targets[k] == rest[k]);
                assert(k != targets.len() - 1);
            }
        }
    }
}

/// Touching the same body twice records it once: recording is idempotent, keeps the list free
/// of repeats, and the bonds made when the block settles name each touched body exactly once.
pub proof fn lemma_glue_idempotent(targets: Seq<u64>, hit: u64, poses: Seq<Option<Pose>>)
    requires
        targets.no_duplicates(),
        poses.len() == with_target(targets, hit).len(),
    ensures
        with_target(with_target(targets, hit), hit) == with_target(targets, hit),
        with_target(targets, hit).no_duplicates(),
        with_target(targets, hit).contains(hit),
        forall|i: int, j: int|
            0 <= i < j < found_targets(with_target(targets, hit), poses).len() ==> (
            #[trigger] found_targets(with_target(targets, hit), poses)[i]).0 != (
            #[trigger] found_targets(with_target(targets, hit), poses)[j]).0,
{
    let t = with_target(targets, hit);
    lemma_with_target_no_duplicates(targets, hit);
    lemma_found_distinct(t, poses);
}


impl GlueEffect {
    /// A glue effect that has touched nothing yet.
    pub fn new() -> (r: GlueEffect)
        ensures
            r.0 matches GlueEffectPhase::Gluing { targets } && targets@.len() == 0,
            glue_ok(&r),
    {
        GlueEffect(GlueEffectPhase::Gluing { targets: Vec::new() })
    }
}

} // verus!
