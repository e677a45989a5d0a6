use vstd::prelude::*;

use crate::fixed::{div_trunc, div_trunc_i128, CELL};
use crate::geometry::{pose_ok, Point, Pose, Rot};
use crate::shape::{center_half_cells, shape_cells, BlockType};
use crate::throw::Velocity;

verus! {

/// One piece of a shattered block: where it starts and how it moves.
#[derive(Clone, Copy, Debug, PartialEq, Eq, Structural)]
pub struct DebrisPiece {
    pub pos: Point,
    pub rot: Rot,
    pub velocity: Velocity,
}

/// The world position of the local point `(lx, ly)` of a body at `pose`.
pub open spec fn to_world(pose: Pose, lx: int, ly: int) -> (int, int) {
    (
        pose.pos.x + div_trunc(pose.rot.c * lx - pose.rot.s * ly, CELL as int),
        pose.pos.y + div_trunc(pose.rot.s * lx + pose.rot.c * ly, CELL as int),
    )
}

/// The centre of cell `cell` of a form with centre `m` (in half cells), in the body frame, in
/// micro-cells.
pub open spec fn cell_centre(cell: (int, int), m: (int, int)) -> (int, int) {
    (cell.0 * CELL - m.0 * (CELL / 2), cell.1 * CELL - m.1 * (CELL / 2))
}

/// `d` is the piece of cell `cell` of a form with centre `m`, for a block at `pose` moving
/// with `v`: it sits at the cell's centre carried into the world.
pub open spec fn is_piece(d: DebrisPiece, cell: (int, int), m: (int, int), pose: Pose, v: Velocity) -> bool {
    &&& (d.pos.x as int, d.pos.y as int) == to_world(pose, cell_centre(cell, m).0, cell_centre(cell, m).1)
    &&& d.rot == pose.rot
    &&& d.velocity == v
}

fn cell_to_world(pose: Pose, p: Point) -> (r: Point)
    requires
        pose_ok(pose),
        -3 * CELL <= p.x <= 3 * CELL,
        -3 * CELL <= p.y <= 3 * CELL,
    ensures
        (r.x as int, r.y as int) == to_world(pose, p.x as int, p.y as int),
{
    let c = pose.rot.c as i128;
    let s = pose.rot.s as i128;
    let x = p.x as i128;
    let y = p.y as i128;
    assert(-0x40_0000_0000_0000 <= c * x <= 0x40_0000_0000_0000) by (nonlinear_arith)
        requires
            -0x10_0000 <= c <= 0x10_0000,
            -0x40_0000 <= x <= 0x40_0000,
    ;
    assert(-0x40_0000_0000_0000 <= s * y <= 0x40_0000_0000_0000) by (nonlinear_arith)
        requires
            -0x10_0000 <= s <= 0x10_0000,
            -0x40_0000 <= y <= 0x40_0000,
    ;
    assert(-0x40_0000_0000_0000 <= s * x <= 0x40_0000_0000_0000) by (nonlinear_arith)
        requires
            -0x10_0000 <= s <= 0x10_0000,
            -0x40_0000 <= x <= 0x40_0000,
    ;
    assert(-0x40_0000_0000_0000 <= c * y <= 0x40_0000_0000_0000) by (nonlinear_arith)
        requires
            -0x10_0000 <= c <= 0x10_0000,
            -0x40_0000 <= y <= 0x40_0000,
    ;
    let dx = div_trunc_i128(c * x - s * y, CELL as i128);
    let dy = div_trunc_i128(s * x + c * y, CELL as i128);
    proof {
        crate::fixed::lemma_div_trunc_bound(c * x - s * y, CELL as int, 0x80_0000_0000_0000int);
        crate::fixed::lemma_div_trunc_bound(s * x + c * y, CELL as int, 0x80_0000_0000_0000int);
    }
    Point { x: (pose.pos.x as i128 + dx) as i64, y: (pose.pos.y as i128 + dy) as i64 }
}

/// The debris of a block of form `block_type` destroyed at `pose` while moving with
/// `velocity`: one piece per cell of the form, at the centre of that cell carried into the
/// world, turned as the block was and moving as it did.
pub fn block_to_debris(block_type: BlockType, pose: Pose, velocity: Velocity) -> (r: Vec<DebrisPiece>)
    requires
        pose_ok(pose),
    ensures
        r@.len() == shape_cells(block_type).len(),
        forall|i: int|
            0 <= i < r@.len() ==> is_piece(#[trigger] r@[i], shape_cells(block_type)[i], center_half_cells(block_type), pose, velocity),
{
    let cells = block_type.get_shape();
    let centre = block_type.get_center();
    assert(0 <= center_half_cells(block_type).0 <= 3 && 0 <= center_half_cells(block_type).1 <= 1);
    assert(CELL / 2 == 500_000);
    let mut r: Vec<DebrisPiece> = Vec::new();
    let mut i: usize = 0;
    while i < cells.len()
        invariant
            pose_ok(pose),
            centre.x == center_half_cells(block_type).0 * (CELL / 2),
            centre.y == center_half_cells(block_type).1 * (CELL / 2),
            0 <= centre.x <= 3 * CELL,
            0 <= centre.y <= CELL,
            cells@.len() == shape_cells(block_type).len(),
            forall|k: int|
                0 <= k < cells@.len() ==> (#[trigger] cells@[k]).x == shape_cells(block_type)[k].0
                    * CELL && cells@[k].y == shape_cells(block_type)[k].1 * CELL,
            forall|k: int|
                0 <= k < shape_cells(block_type).len() ==> 0 <= (#[trigger] shape_cells(block_type)[k]).0
                    <= 3 && 0 <= shape_cells(block_type)[k].1 <= 1,
            i <= cells@.len(),
            r@.len() == i,
            forall|k: int|
                0 <= k < i ==> is_piece(#[trigger] r@[k], shape_cells(block_type)[k], center_half_cells(block_type), pose, velocity),
        decreases cells@.len() - i,
    {
        let p = cells[i];
        assert(0 <= shape_cells(block_type)[i as int].0 <= 3);
        let w = cell_to_world(pose, Point { x: p.x - centre.x, y: p.y - centre.y });
        r.push(DebrisPiece { pos: w, rot: pose.rot, velocity });
        i = i + 1;
    }
    r
}

} // verus!
