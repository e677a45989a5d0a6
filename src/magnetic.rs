use vstd::prelude::*;

use crate::fixed::{div_trunc, div_trunc_i128, isqrt, isqrt_of, lemma_component_le_norm};
use crate::geometry::{in_world, Point};

verus! {

/// A magnet's reach, in micro-cells, and the impulse it gives at zero distance.
#[derive(Clone, Copy, Debug, PartialEq, Eq, Structural)]
pub struct MagneticEffect {
    pub range: u32,
    pub force: u32,
}

/// A body the field acts on: where it is and the magnet it carries, if any.
#[derive(Clone, Copy, Debug, PartialEq, Eq, Structural)]
pub struct MagnetBody {
    pub pos: Point,
    pub magnet: Option<MagneticEffect>,
}

/// Most bodies one field step handles.
pub const MAX_BODIES: usize = 0x10_0000;

/// The impulse a magnet at `magnet` with effect `e` gives a body at `block`: within range, the
/// offset toward the magnet scaled to `(range − distance) / range · force`, rounded toward
/// zero; zero at distance zero; none out of range.
pub open spec fn magnetic_impulse(magnet: Point, block: Point, e: MagneticEffect) -> Option<(int, int)> {
    let dx = magnet.x - block.x;
    let dy = magnet.y - block.y;
    let d = isqrt_of(dx * dx + dy * dy);
    if d >= e.range {
        None
    } else if d == 0 {
        Some((0, 0))
    } else {
        Some(
            (
                div_trunc(dx * ((e.range - d) * e.force), d * e.range),
                div_trunc(dy * ((e.range - d) * e.force), d * e.range),
            ),
        )
    }
}

/// The impulse the magnet of `src`, if any, gives a body at `pos`.
pub open spec fn received(src: MagnetBody, pos: Point) -> (int, int) {
    match src.magnet {
        Some(e) => match magnetic_impulse(src.pos, pos, e) {
            Some(i) => i,
            None => (0, 0),
        },
        None => (0, 0),
    }
}

/// What `me` gets from its pairing with `other`: the pull of `other`'s magnet on it, less the
/// reaction to the pull of its own magnet on `other`.
pub open spec fn exchange(me: MagnetBody, other: MagnetBody) -> (int, int) {
    let a = received(other, me.pos);
    let b = received(me, other.pos);
    (a.0 - b.0, a.1 - b.1)
}

/// The sum of `me`'s exchanges with the first `n` of `bodies`.
pub open spec fn net_impulse(me: MagnetBody, bodies: Seq<MagnetBody>, n: int) -> (int, int)
    decreases n,
{
    if n <= 0 {
        (0, 0)
    } else {
        let p = net_impulse(me, bodies, n - 1);
        let e = exchange(me, bodies[n - 1]);
        (p.0 + e.0, p.1 + e.1)
    }
}

/// Bodies that lie in the world, few enough to sum their impulses.
pub open spec fn bodies_ok(bodies: Seq<MagnetBody>) -> bool {
    bodies.len() <= MAX_BODIES && forall|i: int| 0 <= i < bodies.len() ==> in_world(#[trigger] bodies[i].pos)
}

proof fn lemma_trunc_scaled(a: int, m: int, d: int, range: int)
    requires
        -d <= a <= d,
        0 < d < range,
        0 <= m <= (range - d) * 0xffff_ffff,
    ensures
        -0xffff_ffff <= div_trunc(a * m, d * range) <= 0xffff_ffff,
{
    assert(d * range > 0) by (nonlinear_arith)
        requires
            0 < d < range,
    ;
    let b = if a >= 0 { a * m } else { -(a * m) };
    assert(0 <= b <= d * m) by (nonlinear_arith)
        requires
            -d <= a <= d,
            m >= 0,
            b == (if a >= 0 { a * m } else { -(a * m) }),
    ;
    assert(d * m <= d * range * 0xffff_ffff) by (nonlinear_arith)
        requires
            0 < d < range,
            0 <= m <= (range - d) * 0xffff_ffff,
    ;
    assert(b / (d * range) <= 0xffff_ffff) by (nonlinear_arith)
        requires
            0 <= b <= d * range * 0xffff_ffff,
            d * range > 0,
    ;
    assert(b / (d * range) >= 0) by (nonlinear_arith)
        requires
            0 <= b,
            d * range > 0,
    ;
}

/// The impulse a magnet gives a body, or `None` when the body is out of its range.
pub fn calculate_magnetic_impulse(magnet: Point, block: Point, effect: &MagneticEffect) -> (r: Option<Point>)
    requires
        in_world(magnet),
        in_world(block),
    ensures
        r matches Some(p) ==> magnetic_impulse(magnet, block, *effect) == Some((p.x as int, p.y as int)),
        r is None <==> magnetic_impulse(magnet, block, *effect) is None,
        r matches Some(p) ==> -0xffff_ffff <= p.x <= 0xffff_ffff && -0xffff_ffff <= p.y <= 0xffff_ffff,
{
    let dx = magnet.x as i128 - block.x as i128;
    let dy = magnet.y as i128 - block.y as i128;
    assert(0 <= dx * dx <= 0x4_0000_0000_0000_0000_0000) by (nonlinear_arith)
        requires
            -0x200_0000_0000 <= dx <= 0x200_0000_0000,
    ;
    assert(0 <= dy * dy <= 0x4_0000_0000_0000_0000_0000) by (nonlinear_arith)
        requires
            -0x200_0000_0000 <= dy <= 0x200_0000_0000,
    ;
    let d = isqrt((dx * dx + dy * dy) as u128);
    if d >= effect.range as u64 {
        return None;
    }
    if d == 0 {
        return Some(Point { x: 0, y: 0 });
    }
    let range = effect.range as i128;
    let di = d as i128;
    assert(0 <= (range - di) * (effect.force as i128) <= (range - di) * 0xffff_ffff) by (nonlinear_arith)
        requires
            0 < di < range,
            0 <= effect.force <= 0xffff_ffff,
    ;
    assert((range - di) * 0xffff_ffff <= 0x1_0000_0000 * 0x1_0000_0000) by (nonlinear_arith)
        requires
            0 < di < range <= 0xffff_ffff,
    ;
    let m = (range - di) * (effect.force as i128);
    proof {
        lemma_component_le_norm(dx as int, dy as int, d as int);
        lemma_component_le_norm(dy as int, dx as int, d as int);
        lemma_trunc_scaled(dx as int, m as int, d as int, range as int);
        lemma_trunc_scaled(dy as int, m as int, d as int, range as int);
    }
    assert(-0x200_0000_0000 * 0x1_0000_0000_0000_0000 <= dx * m <= 0x200_0000_0000 * 0x1_0000_0000_0000_0000)
        by (nonlinear_arith)
        requires
            -0x200_0000_0000 <= dx <= 0x200_0000_0000,
            0 <= m <= 0x1_0000_0000_0000_0000,
    ;
    assert(-0x200_0000_0000 * 0x1_0000_0000_0000_0000 <= dy * m <= 0x200_0000_0000 * 0x1_0000_0000_0000_0000)
        by (nonlinear_arith)
        requires
            -0x200_0000_0000 <= dy <= 0x200_0000_0000,
            0 <= m <= 0x1_0000_0000_0000_0000,
    ;
    assert(0 < di * range <= 0x1_0000_0000 * 0x1_0000_0000) by (nonlinear_arith)
        requires
            0 < di < range <= 0xffff_ffff,
    ;
    let x = div_trunc_i128(dx * m, di * range);
    let y = div_trunc_i128(dy * m, di * range);
    Some(Point { x: x as i64, y: y as i64 })
}


/// The impulse `src`'s magnet gives a body at `pos`, zero when it has none or is out of range.
fn received_impulse(src: &MagnetBody, pos: Point) -> (r: Point)
    requires
        in_world(src.pos),
        in_world(pos),
    ensures
        (r.x as int, r.y as int) == received(*src, pos),
        -0xffff_ffff <= r.x <= 0xffff_ffff,
        -0xffff_ffff <= r.y <= 0xffff_ffff,
{
    match &src.magnet {
        Some(e) => match calculate_magnetic_impulse(src.pos, pos, e) {
            Some(i) => i,
            None => Point { x: 0, y: 0 },
        },
        None => Point { x: 0, y: 0 },
    }
}

/// The net impulse the field gives `me` from its pairings with every one of `bodies`.
pub fn net_magnetic_impulse(me: &MagnetBody, bodies: &Vec<MagnetBody>) -> (r: Point)
    requires
        in_world(me.pos),
        bodies_ok(bodies@),
    ensures
        (r.x as int, r.y as int) == net_impulse(*me, bodies@, bodies@.len() as int),
        -0x20_0000_0000_0000 <= r.x <= 0x20_0000_0000_0000,
        -0x20_0000_0000_0000 <= r.y <= 0x20_0000_0000_0000,
{
    let mut x: i64 = 0;
    let mut y: i64 = 0;
    let mut j: usize = 0;
    while j < bodies.len()
        invariant
            in_world(me.pos),
            bodies_ok(bodies@),
            j <= bodies@.len(),
            (x as int, y as int) == net_impulse(*me, bodies@, j as int),
            -(j * 0x2_0000_0000) <= x <= j * 0x2_0000_0000,
            -(j * 0x2_0000_0000) <= y <= j * 0x2_0000_0000,
        decreases bodies@.len() - j,
    {
        assert(j < MAX_BODIES);
        let other = &bodies[j];
        let a = received_impulse(other, me.pos);
        let b = received_impulse(me, other.pos);
        assert((j + 1) * 0x2_0000_0000 == j * 0x2_0000_0000 + 0x2_0000_0000) by (nonlinear_arith);
        assert((j + 1) * 0x2_0000_0000 <= 0x10_0000 * 0x2_0000_0000) by (nonlinear_arith)
            requires
                j < 0x10_0000,
        ;
        x = x + (a.x - b.x);
        y = y + (a.y - b.y);
        j = j + 1;
    }
    assert(j * 0x2_0000_0000 <= 0x10_0000 * 0x2_0000_0000) by (nonlinear_arith)
        requires
            j <= 0x10_0000,
    ;
    Point { x, y }
}

/// The impulse the field gives each body in one step, accumulated over every pair.
pub fn magnetic_impulses(bodies: &Vec<MagnetBody>) -> (r: Vec<Point>)
    requires
        bodies_ok(bodies@),
    ensures
        r@.len() == bodies@.len(),
        forall|k: int|
            0 <= k < r@.len() ==> ((#[trigger] r@[k]).x as int, r@[k].y as int) == net_impulse(
                bodies@[k],
                bodies@,
                bodies@.len() as int,
            ),
{
    let mut r: Vec<Point> = Vec::new();
    let mut k: usize = 0;
    while k < bodies.len()
        invariant
            bodies_ok(bodies@),
            k <= bodies@.len(),
            r@.len() == k,
            forall|i: int|
                0 <= i < k ==> ((#[trigger] r@[i]).x as int, r@[i].y as int) == net_impulse(
                    bodies@[i],
                    bodies@,
                    bodies@.len() as int,
                ),
        decreases bodies@.len() - k,
    {
        let p = net_magnetic_impulse(&bodies[k], bodies);
        r.push(p);
        k = k + 1;
    }
    r
}

/// Two magnets with the same effect pull each other with equal and opposite impulses, and in
/// any pairing what one body gets is exactly the opposite of what the other gets.
pub proof fn lemma_magnetic_symmetry(a: MagnetBody, b: MagnetBody, e: MagneticEffect)
    ensures
        ({
            let ma = MagnetBody { magnet: Some(e), ..a };
            let mb = MagnetBody { magnet: Some(e), ..b };
            &&& received(ma, b.pos).0 == -received(mb, a.pos).0
            &&& received(ma, b.pos).1 == -received(mb, a.pos).1
        }),
        exchange(a, b).0 == -exchange(b, a).0,
        exchange(a, b).1 == -exchange(b, a).1,
{
    let dx = a.pos.x - b.pos.x;
    let dy = a.pos.y - b.pos.y;
    assert((b.pos.x - a.pos.x) * (b.pos.x - a.pos.x) + (b.pos.y - a.pos.y) * (b.pos.y - a.pos.y)
        == dx * dx + dy * dy) by (nonlinear_arith)
        requires
            dx == a.pos.x - b.pos.x,
            dy == a.pos.y - b.pos.y,
    ;
    assert(dx * dx + dy * dy >= 0) by (nonlinear_arith);
    crate::fixed::lemma_isqrt_exists(dx * dx + dy * dy);
    let d = isqrt_of(dx * dx + dy * dy);
    let m = (e.range - d) * e.force;
    assert((b.pos.x - a.pos.x) * m == -(dx * m)) by (nonlinear_arith)
        requires
            dx == a.pos.x - b.pos.x,
    ;
    assert((b.pos.y - a.pos.y) * m == -(dy * m)) by (nonlinear_arith)
        requires
            dy == a.pos.y - b.pos.y,
    ;
    if 0 < d < e.range {
        assert(d * e.range > 0) by (nonlinear_arith)
            requires
                0 < d < e.range,
        ;
        lemma_div_trunc_neg(dx * m, d * e.range);
        lemma_div_trunc_neg(dy * m, d * e.range);
    }
    let ma = MagnetBody { magnet: Some(e), ..a };
    let mb = MagnetBody { magnet: Some(e), ..b };
    let ia = magnetic_impulse(a.pos, b.pos, e);
    let ib = magnetic_impulse(b.pos, a.pos, e);
    assert(ma.pos == a.pos && ma.magnet == Some(e));
    assert(mb.pos == b.pos && mb.magnet == Some(e));
    if d >= e.range {
        assert(ia is None && ib is None);
    } else if d == 0 {
        assert(ia == Some((0int, 0int)) && ib == Some((0int, 0int)));
    } else {
        assert(ia == Some((div_trunc(dx * m, d * e.range), div_trunc(dy * m, d * e.range))));
        assert(ib == Some((div_trunc(-(dx * m), d * e.range), div_trunc(-(dy * m), d * e.range))));
    }
}

proof fn lemma_div_trunc_neg(a: int, d: int)
    requires
        d > 0,
    ensures
        div_trunc(-a, d) == -div_trunc(a, d),
{
    if a == 0 {
        assert(0int / d == 0) by (nonlinear_arith)
            requires
                d > 0,
        ;
    }
}


impl MagneticEffect {
    /// The magnet a block gets: a reach of ten cells and an impulse of two mass-cells per
    /// second (33 333 in micro-cells per tick) at its centre.
    pub fn new() -> (r: MagneticEffect)
        ensures
            r.range == 10_000_000,
            r.force == 33_333,
    {
        MagneticEffect { range: 10_000_000, force: 33_333 }
    }
}


/// The sum over the first `rows` bodies of what each gets from the first `cols` bodies.
pub open spec fn total_impulse(bodies: Seq<MagnetBody>, rows: int, cols: int) -> (int, int)
    decreases rows,
{
    if rows <= 0 {
        (0, 0)
    } else {
        let p = total_impulse(bodies, rows - 1, cols);
        let e = net_impulse(bodies[rows - 1], bodies, cols);
        (p.0 + e.0, p.1 + e.1)
    }
}

/// What the first `rows` bodies get from body `col`.
pub open spec fn column_impulse(bodies: Seq<MagnetBody>, rows: int, col: int) -> (int, int)
    decreases rows,
{
    if rows <= 0 {
        (0, 0)
    } else {
        let p = column_impulse(bodies, rows - 1, col);
        let e = exchange(bodies[rows - 1], bodies[col]);
        (p.0 + e.0, p.1 + e.1)
    }
}

proof fn lemma_total_add_column(bodies: Seq<MagnetBody>, rows: int, cols: int)
    requires
        0 <= rows,
        0 <= cols,
    ensures
        total_impulse(bodies, rows, cols + 1).0 == total_impulse(bodies, rows, cols).0 + column_impulse(
            bodies,
            rows,
            cols,
        ).0,
        total_impulse(bodies, rows, cols + 1).1 == total_impulse(bodies, rows, cols).1 + column_impulse(
            bodies,
            rows,
            cols,
        ).1,
    decreases rows,
{
    if rows > 0 {
        lemma_total_add_column(bodies, rows - 1, cols);
    }
}

proof fn lemma_column_is_opposite_row(bodies: Seq<MagnetBody>, rows: int, col: int)
    requires
        0 <= rows,
    ensures
        column_impulse(bodies, rows, col).0 == -net_impulse(bodies[col], bodies, rows).0,
        column_impulse(bodies, rows, col).1 == -net_impulse(bodies[col], bodies, rows).1,
    decreases rows,
{
    if rows > 0 {
        lemma_column_is_opposite_row(bodies, rows - 1, col);
        lemma_exchange_antisymmetric(bodies[rows - 1], bodies[col]);
    }
}

proof fn lemma_exchange_antisymmetric(a: MagnetBody, b: MagnetBody)
    ensures
        exchange(a, b).0 == -exchange(b, a).0,
        exchange(a, b).1 == -exchange(b, a).1,
{
}

proof fn lemma_self_exchange(b: MagnetBody)
    ensures
        exchange(b, b) == (0int, 0int),
{
}

/// The field conserves momentum: in one step the impulses of all bodies sum to zero, since
/// every pair contributes equal and opposite impulses and no pair is counted twice.
pub proof fn lemma_field_conserves_momentum(bodies: Seq<MagnetBody>, n: int)
    requires
        0 <= n <= bodies.len(),
    ensures
        total_impulse(bodies, n, n) == (0int, 0int),
    decreases n,
{
    if n > 0 {
        let m = n - 1;
        lemma_field_conserves_momentum(bodies, m);
        lemma_total_add_column(bodies, m, m);
        lemma_column_is_opposite_row(bodies, m, m);
        lemma_self_exchange(bodies[m]);
        assert(net_impulse(bodies[m], bodies, n) == {
            let p = net_impulse(bodies[m], bodies, m);
            let e = exchange(bodies[m], bodies[m]);
            (p.0 + e.0, p.1 + e.1)
        });
    }
}

} // verus!
