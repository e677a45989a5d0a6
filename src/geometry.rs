use vstd::prelude::*;

verus! {

/// A point or vector of the plane, in micro-cells.
#[derive(Clone, Copy, Debug, PartialEq, Eq, Structural)]
pub struct Point {
    pub x: i64,
    pub y: i64,
}

/// A rotation held as its cosine and sine, each scaled by `CELL`.
#[derive(Clone, Copy, Debug, PartialEq, Eq, Structural)]
pub struct Rot {
    pub c: i64,
    pub s: i64,
}

/// Where a body stands: its translation and its rotation.
#[derive(Clone, Copy, Debug, PartialEq, Eq, Structural)]
pub struct Pose {
    pub pos: Point,
    pub rot: Rot,
}

/// Bound on every coordinate of the world, in micro-cells (about a million cells).
pub const WORLD: i64 = 0x100_0000_0000;

/// A point that lies in the world.
pub open spec fn in_world(p: Point) -> bool {
    -WORLD <= p.x <= WORLD && -WORLD <= p.y <= WORLD
}

/// Slack allowed on the squared length of a rotation, for cosine and sine rounded to
/// millionths.
pub const ROT_SLACK: i64 = 4_000_000;

/// A rotation of unit length: components at most `CELL` in magnitude and `c² + s²` within
/// `ROT_SLACK` of `CELL²`.
pub open spec fn rot_ok(r: Rot) -> bool {
    &&& -crate::fixed::CELL <= r.c <= crate::fixed::CELL
    &&& -crate::fixed::CELL <= r.s <= crate::fixed::CELL
    &&& crate::fixed::CELL * crate::fixed::CELL - ROT_SLACK <= r.c * r.c + r.s * r.s
        <= crate::fixed::CELL * crate::fixed::CELL + ROT_SLACK
}

/// A pose inside the world with a bounded rotation.
pub open spec fn pose_ok(p: Pose) -> bool {
    in_world(p.pos) && rot_ok(p.rot)
}

/// The identity rotation.
pub open spec fn rot_identity() -> Rot {
    Rot { c: crate::fixed::CELL, s: 0 }
}

impl Point {
    pub fn new(x: i64, y: i64) -> (r: Point)
        ensures
            r == (Point { x, y }),
    {
        Point { x, y }
    }
}

impl Rot {
    /// The rotation that changes nothing.
    pub fn identity() -> (r: Rot)
        ensures
            r == rot_identity(),
            rot_ok(r),
    {
        assert(crate::fixed::CELL * crate::fixed::CELL == 1_000_000_000_000) by (nonlinear_arith);
        Rot { c: crate::fixed::CELL, s: 0 }
    }
}


impl Rot {
    /// This rotation followed by a quarter turn counter-clockwise.
    pub fn quarter_turn(&self) -> (r: Rot)
        requires
            rot_ok(*self),
        ensures
            rot_ok(r),
            r.c == -self.s,
            r.s == self.c,
    {
        assert((-self.s) * (-self.s) == self.s * self.s) by (nonlinear_arith);
        Rot { c: -self.s, s: self.c }
    }
}

} // verus!
