use vstd::prelude::*;

use crate::fixed::CELL;
use crate::geometry::Point;
use crate::rng::random_below;

verus! {

/// The seven polyomino forms a block can take.
#[derive(Clone, Copy, Debug, PartialEq, Eq, Structural)]
pub enum BlockType {
    I,
    O,
    T,
    S,
    Z,
    J,
    L,
}

/// An axis-aligned rectangle of a compound collider: its centre in the block's frame and its
/// half extents, all in micro-cells.
#[derive(Clone, Copy, Debug, PartialEq, Eq, Structural)]
pub struct ColliderPart {
    pub offset: Point,
    pub half_width: i64,
    pub half_height: i64,
}

/// The unit cells of a form, as (column, row) offsets in cells.
pub open spec fn shape_cells(b: BlockType) -> Seq<(int, int)> {
    match b {
        BlockType::I => seq![(0, 0), (1, 0), (2, 0), (3, 0)],
        BlockType::O => seq![(0, 0), (1, 0), (0, 1), (1, 1)],
        BlockType::T => seq![(0, 0), (1, 0), (2, 0), (1, 1)],
        BlockType::S => seq![(0, 0), (1, 0), (1, 1), (2, 1)],
        BlockType::Z => seq![(0, 1), (1, 1), (1, 0), (2, 0)],
        BlockType::J => seq![(0, 1), (0, 0), (1, 0), (2, 0)],
        BlockType::L => seq![(0, 0), (1, 0), (2, 0), (2, 1)],
    }
}

/// Width of a form, in cells.
pub open spec fn width_cells(b: BlockType) -> int {
    match b {
        BlockType::I => 4,
        BlockType::O => 2,
        _ => 3,
    }
}

/// Height of a form, in cells.
pub open spec fn height_cells(b: BlockType) -> int {
    match b {
        BlockType::I => 1,
        _ => 2,
    }
}

/// The centre of a form in the frame of its cell offsets, in half cells: the middle of its
/// bounding box, each cell being the unit square centred on its offset.
pub open spec fn center_half_cells(b: BlockType) -> (int, int) {
    match b {
        BlockType::I => (3, 0),
        BlockType::O => (1, 1),
        _ => (2, 1),
    }
}

/// The collider of a form in the body frame, whose origin is the form's centre:
/// (centre x, centre y, half width, half height) of each rectangle, in half cells.
pub open spec fn collider_half_cells(b: BlockType) -> Seq<(int, int, int, int)> {
    match b {
        BlockType::I => seq![(0, 0, 4, 1)],
        BlockType::O => seq![(0, 0, 2, 2)],
        BlockType::T => seq![(0, -1, 3, 1), (0, 1, 1, 1)],
        BlockType::S => seq![(1, 1, 2, 1), (-1, -1, 2, 1)],
        BlockType::Z => seq![(-1, 1, 2, 1), (1, -1, 2, 1)],
        BlockType::J => seq![(0, -1, 3, 1), (-2, 1, 1, 1)],
        BlockType::L => seq![(0, -1, 3, 1), (2, 1, 1, 1)],
    }
}

/// The letter that names a form.
pub open spec fn letter_of(b: BlockType) -> char {
    match b {
        BlockType::I => 'I',
        BlockType::O => 'O',
        BlockType::T => 'T',
        BlockType::S => 'S',
        BlockType::Z => 'Z',
        BlockType::J => 'J',
        BlockType::L => 'L',
    }
}

/// The form at a position of the list I, O, T, S, Z, J, L.
pub open spec fn block_at(i: int) -> BlockType {
    if i == 0 {
        BlockType::I
    } else if i == 1 {
        BlockType::O
    } else if i == 2 {
        BlockType::T
    } else if i == 3 {
        BlockType::S
    } else if i == 4 {
        BlockType::Z
    } else if i == 5 {
        BlockType::J
    } else {
        BlockType::L
    }
}

fn cell(x: i64, y: i64) -> (r: Point)
    requires
        0 <= x <= 3,
        0 <= y <= 1,
    ensures
        r.x == x * CELL,
        r.y == y * CELL,
{
    Point { x: x * CELL, y: y * CELL }
}

fn part(x: i64, y: i64, hw: i64, hh: i64) -> (r: ColliderPart)
    requires
        -2 <= x <= 2,
        -1 <= y <= 1,
        1 <= hw <= 4,
        1 <= hh <= 2,
    ensures
        r.offset.x == x * (CELL / 2),
        r.offset.y == y * (CELL / 2),
        r.half_width == hw * (CELL / 2),
        r.half_height == hh * (CELL / 2),
{
    ColliderPart {
        offset: Point { x: x * (CELL / 2), y: y * (CELL / 2) },
        half_width: hw * (CELL / 2),
        half_height: hh * (CELL / 2),
    }
}

impl BlockType {
    /// The form at position `i` of the list I, O, T, S, Z, J, L.
    pub fn from_index(i: u32) -> (r: BlockType)
        requires
            i < 7,
        ensures
            r == block_at(i as int),
    {
        if i == 0 {
            BlockType::I
        } else if i == 1 {
            BlockType::O
        } else if i == 2 {
            BlockType::T
        } else if i == 3 {
            BlockType::S
        } else if i == 4 {
            BlockType::Z
        } else if i == 5 {
            BlockType::J
        } else {
            BlockType::L
        }
    }

    /// A form drawn uniformly from the seven: the form at a random position of the list.
    pub fn random() -> (r: BlockType)
        ensures
            exists|i: int| 0 <= i < 7 && r == block_at(i),
    {
        let i = random_below(7);
        BlockType::from_index(i)
    }

    /// The unit cells of the form, one point per cell at its offset in micro-cells.
    pub fn get_shape(&self) -> (r: Vec<Point>)
        ensures
            r@.len() == shape_cells(*self).len(),
            forall|i: int|
                0 <= i < r@.len() ==> r@[i].x == shape_cells(*self)[i].0 * CELL && r@[i].y
                    == shape_cells(*self)[i].1 * CELL,
    {
        match self {
            BlockType::I => vec![cell(0, 0), cell(1, 0), cell(2, 0), cell(3, 0)],
            BlockType::O => vec![cell(0, 0), cell(1, 0), cell(0, 1), cell(1, 1)],
            BlockType::T => vec![cell(0, 0), cell(1, 0), cell(2, 0), cell(1, 1)],
            BlockType::S => vec![cell(0, 0), cell(1, 0), cell(1, 1), cell(2, 1)],
            BlockType::Z => vec![cell(0, 1), cell(1, 1), cell(1, 0), cell(2, 0)],
            BlockType::J => vec![cell(0, 1), cell(0, 0), cell(1, 0), cell(2, 0)],
            BlockType::L => vec![cell(0, 0), cell(1, 0), cell(2, 0), cell(2, 1)],
        }
    }

    /// The centre used to draw the form, in micro-cells.
    pub fn get_center(&self) -> (r: Point)
        ensures
            r.x == center_half_cells(*self).0 * (CELL / 2),
            r.y == center_half_cells(*self).1 * (CELL / 2),
    {
        let h: i64 = CELL / 2;
        match self {
            BlockType::I => Point { x: 3 * h, y: 0 },
            BlockType::O => Point { x: h, y: h },
            _ => Point { x: 2 * h, y: h },
        }
    }

    /// The compound collider of the form: one axis-aligned rectangle per part.
    pub fn build_collider(&self) -> (r: Vec<ColliderPart>)
        ensures
            r@.len() == collider_half_cells(*self).len(),
            forall|i: int|
                0 <= i < r@.len() ==> {
                    let q = collider_half_cells(*self)[i];
                    &&& (#[trigger] r@[i]).offset.x == q.0 * (CELL / 2)
                    &&& r@[i].offset.y == q.1 * (CELL / 2)
                    &&& r@[i].half_width == q.2 * (CELL / 2)
                    &&& r@[i].half_height == q.3 * (CELL / 2)
                },
    {
        match self {
            BlockType::I => vec![part(0, 0, 4, 1)],
            BlockType::O => vec![part(0, 0, 2, 2)],
            BlockType::T => vec![part(0, -1, 3, 1), part(0, 1, 1, 1)],
            BlockType::S => vec![part(1, 1, 2, 1), part(-1, -1, 2, 1)],
            BlockType::Z => vec![part(-1, 1, 2, 1), part(1, -1, 2, 1)],
            BlockType::J => vec![part(0, -1, 3, 1), part(-2, 1, 1, 1)],
            BlockType::L => vec![part(0, -1, 3, 1), part(2, 1, 1, 1)],
        }
    }

    /// Width of the form, in cells.
    pub fn block_width(&self) -> (r: u32)
        ensures
            r == width_cells(*self),
    {
        match self {
            BlockType::I => 4,
            BlockType::O => 2,
            _ => 3,
        }
    }

    /// Height of the form, in cells.
    pub fn block_height(&self) -> (r: u32)
        ensures
            r == height_cells(*self),
    {
        match self {
            BlockType::I => 1,
            _ => 2,
        }
    }

    /// Width of the form, in micro-cells.
    pub fn width(&self) -> (r: i64)
        ensures
            r == width_cells(*self) * CELL,
    {
        self.block_width() as i64 * CELL
    }

    /// Height of the form, in micro-cells.
    pub fn height(&self) -> (r: i64)
        ensures
            r == height_cells(*self) * CELL,
    {
        self.block_height() as i64 * CELL
    }

    /// The letter that names the form.
    pub fn letter(&self) -> (r: &'static str)
        ensures
            r@ == seq![letter_of(*self)],
    {
        match self {
            BlockType::I => {
                proof {
                    reveal_strlit("I");
                }
                "I"
            },
            BlockType::O => {
                proof {
                    reveal_strlit("O");
                }
                "O"
            },
            BlockType::T => {
                proof {
                    reveal_strlit("T");
                }
                "T"
            },
            BlockType::S => {
                proof {
                    reveal_strlit("S");
                }
                "S"
            },
            BlockType::Z => {
                proof {
                    reveal_strlit("Z");
                }
                "Z"
            },
            BlockType::J => {
                proof {
                    reveal_strlit("J");
                }
                "J"
            },
            BlockType::L => {
                proof {
                    reveal_strlit("L");
                }
                "L"
            },
        }
    }
}


/// The point `(x, y)`, in quarter cells of the body frame, lies strictly inside a rectangle
/// of the form's collider.
pub open spec fn in_collider(b: BlockType, x: int, y: int) -> bool {
    exists|k: int|
        0 <= k < collider_half_cells(b).len() && {
            let q = #[trigger] collider_half_cells(b)[k];
            -2 * q.2 < x - 2 * q.0 < 2 * q.2 && -2 * q.3 < y - 2 * q.1 < 2 * q.3
        }
}

/// The point `(x, y)`, in quarter cells of the body frame, lies strictly inside a cell of the
/// form, each cell being the unit square at its offset less the form's centre.
pub open spec fn in_cells(b: BlockType, x: int, y: int) -> bool {
    exists|i: int|
        0 <= i < shape_cells(b).len() && {
            let c = #[trigger] shape_cells(b)[i];
            let m = center_half_cells(b);
            -2 < x - 2 * (2 * c.0 - m.0) < 2 && -2 < y - 2 * (2 * c.1 - m.1) < 2
        }
}

/// The three descriptions of a form agree: its collider covers exactly its cells placed about
/// its centre. Stated for every quarter-cell square of the body frame, named by the point
/// `(2a + 1, 2b + 1)` at its middle.
pub proof fn lemma_collider_matches_cells(f: BlockType, a: int, b: int)
    ensures
        in_collider(f, 2 * a + 1, 2 * b + 1) <==> in_cells(f, 2 * a + 1, 2 * b + 1),
{
    let x = 2 * a + 1;
    let y = 2 * b + 1;
    let q = collider_half_cells(f);
    let c = shape_cells(f);
    assert(c[0] == c[0] && c[1] == c[1] && c[2] == c[2] && c[3] == c[3]);
    assert(q[0] == q[0]);
    if q.len() > 1 {
        assert(q[1] == q[1]);
    }
    if in_collider(f, x, y) {
        let k = choose|k: int|
            0 <= k < q.len() && {
                let r = #[trigger] q[k];
                -2 * r.2 < x - 2 * r.0 < 2 * r.2 && -2 * r.3 < y - 2 * r.1 < 2 * r.3
            };
        assert(k == 0 || k == 1);
    }
    if in_cells(f, x, y) {
        let i = choose|i: int|
            0 <= i < c.len() && {
                let d = #[trigger] c[i];
                let m = center_half_cells(f);
                -2 < x - 2 * (2 * d.0 - m.0) < 2 && -2 < y - 2 * (2 * d.1 - m.1) < 2
            };
        assert(0 <= i < 4);
    }
}

/// Every form is made of four cells.
pub proof fn lemma_four_cells(b: BlockType)
    ensures
        shape_cells(b).len() == 4,
{
}

} // verus!
