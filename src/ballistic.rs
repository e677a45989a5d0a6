use vstd::prelude::*;

use crate::fixed::{div_trunc, div_trunc_i128, isqrt, isqrt_of, lemma_component_le_norm, CELL};
use crate::geometry::{in_world, Point, WORLD};

verus! {

/// Downward acceleration, in micro-cells per tick squared (19.62 cells/s² at 60 ticks/s).
pub const GRAVITY: i64 = 5450;

/// Largest launch speed the solver handles, in micro-cells per tick.
pub const MAX_SPEED: u32 = 0x4000_0000;

/// Launch speeds are searched from zero upward in steps of this many micro-cells per tick.
pub const SPEED_STEP: u32 = 100;

/// Number of speeds tried before the target is given up as unreachable.
pub const SPEED_SEARCH_CAP: u32 = 10000;

/// The discriminant of the launch-angle equation for offset `(xp, y)` at speed `v`:
/// `v⁴ − g·(g·xp² + 2·y·v²)`; negative exactly when the target is out of reach.
pub open spec fn discriminant(xp: int, y: int, v: int) -> int {
    (v * v) * (v * v) - GRAVITY * (GRAVITY * xp * xp + 2 * y * (v * v))
}

/// The launch direction `(g·xp, v² ± √disc)`, unnormalised: the minus root (low arc) for
/// direct aim, the plus root (high arc) otherwise.
pub open spec fn shot_direction(xp: int, y: int, v: int, direct: bool) -> (int, int) {
    let r = isqrt_of(discriminant(xp, y, v));
    (GRAVITY * xp, if direct { v * v - r } else { v * v + r })
}

/// The vector `(dx, dy)` scaled to length `len` (rounded toward zero), or `(len, 0)` when
/// `(dx, dy)` is zero, the direction of angle zero.
pub open spec fn scaled_to(dx: int, dy: int, len: int) -> (int, int) {
    let n = isqrt_of(dx * dx + dy * dy);
    if n == 0 {
        (len, 0)
    } else {
        (div_trunc(dx * len, n), div_trunc(dy * len, n))
    }
}

/// The unit launch direction (scaled to `CELL`) toward a target at offset `(xp, y)` at speed
/// `v`, when the target is in reach.
pub open spec fn shot_unit(xp: int, y: int, v: int, direct: bool) -> Option<(int, int)> {
    if discriminant(xp, y, v) < 0 {
        None
    } else {
        let d = shot_direction(xp, y, v, direct);
        Some(scaled_to(d.0, d.1, CELL as int))
    }
}

/// `s` is the vertical part of a direction `(g·xp, s)` whose parabola at speed `v` passes
/// through the offset `(xp, y)`, up to `residual`: `s² − 2v²s + g²xp² + 2gv²y`.
pub open spec fn arc_residual(xp: int, y: int, v: int, s: int) -> int {
    s * s - 2 * v * v * s + GRAVITY * GRAVITY * xp * xp + 2 * GRAVITY * v * v * y
}

proof fn lemma_discriminant_bounds(xp: int, y: int, v: int)
    requires
        -2 * WORLD <= xp <= 2 * WORLD,
        -2 * WORLD <= y <= 2 * WORLD,
        0 <= v <= MAX_SPEED,
    ensures
        0 <= v * v <= 0x1000_0000_0000_0000,
        0 <= (v * v) * (v * v) <= 0x100_0000_0000_0000_0000_0000_0000_0000,
        0 <= GRAVITY * xp * xp <= 0x1_0000_0000_0000_0000_0000_0000,
        -0x100_0000_0000_0000_0000_0000_0000 <= 2 * y * (v * v) <= 0x100_0000_0000_0000_0000_0000_0000,
        -0x40_0000_0000_0000_0000_0000_0000_0000 <= GRAVITY * (GRAVITY * xp * xp + 2 * y * (v * v))
            <= 0x40_0000_0000_0000_0000_0000_0000_0000,
        -0x40_0000_0000_0000_0000_0000_0000_0000 <= discriminant(xp, y, v)
            <= 0x200_0000_0000_0000_0000_0000_0000_0000,
{
    assert(0 <= v * v <= 0x1000_0000_0000_0000) by (nonlinear_arith)
        requires
            0 <= v <= 0x4000_0000,
    ;
    assert(0 <= (v * v) * (v * v) <= 0x100_0000_0000_0000_0000_0000_0000_0000) by (nonlinear_arith)
        requires
            0 <= v * v <= 0x1000_0000_0000_0000,
    ;
    assert(0 <= xp * xp <= 0x4_0000_0000_0000_0000_0000) by (nonlinear_arith)
        requires
            -0x200_0000_0000 <= xp <= 0x200_0000_0000,
    ;
    assert(0 <= GRAVITY * xp * xp <= 0x1_0000_0000_0000_0000_0000_0000) by (nonlinear_arith)
        requires
            0 <= xp * xp <= 0x4_0000_0000_0000_0000_0000,
    ;
    assert(-0x100_0000_0000_0000_0000_0000_0000 <= 2 * y * (v * v) <= 0x100_0000_0000_0000_0000_0000_0000)
        by (nonlinear_arith)
        requires
            -0x200_0000_0000 <= y <= 0x200_0000_0000,
            0 <= v * v <= 0x1000_0000_0000_0000,
    ;
    let inner = GRAVITY * xp * xp + 2 * y * (v * v);
    assert(-0x40_0000_0000_0000_0000_0000_0000_0000 <= GRAVITY * inner
        <= 0x40_0000_0000_0000_0000_0000_0000_0000) by (nonlinear_arith)
        requires
            -0x200_0000_0000_0000_0000_0000_0000 <= inner <= 0x200_0000_0000_0000_0000_0000_0000,
    ;
}

/// The discriminant of the launch-angle equation, computed exactly.
fn compute_discriminant(xp: i128, y: i128, v: u32) -> (r: i128)
    requires
        -2 * WORLD <= xp <= 2 * WORLD,
        -2 * WORLD <= y <= 2 * WORLD,
        v <= MAX_SPEED,
    ensures
        r == discriminant(xp as int, y as int, v as int),
        r <= 0x200_0000_0000_0000_0000_0000_0000_0000,
{
    proof {
        lemma_discriminant_bounds(xp as int, y as int, v as int);
    }
    let g = GRAVITY as i128;
    let v2 = (v as i128) * (v as i128);
    let gx = g * xp * xp;
    let yv = 2 * y * v2;
    let inner = gx + yv;
    v2 * v2 - g * inner
}


proof fn lemma_scaled_component(a: int, len: int, n: int)
    requires
        -n <= a <= n,
        n > 0,
        len >= 0,
    ensures
        -len <= div_trunc(a * len, n) <= len,
{
    if a >= 0 {
        assert(0 <= a * len <= n * len) by (nonlinear_arith)
            requires
                0 <= a <= n,
                len >= 0,
        ;
        assert(0 <= (a * len) / n <= len) by (nonlinear_arith)
            requires
                0 <= a * len <= n * len,
                n > 0,
        ;
    } else {
        assert(0 <= -(a * len) <= n * len) by (nonlinear_arith)
            requires
                -n <= a < 0,
                len >= 0,
        ;
        assert(0 <= (-(a * len)) / n <= len) by (nonlinear_arith)
            requires
                0 <= -(a * len) <= n * len,
                n > 0,
        ;
    }
}

/// The vector `(dx, dy)` scaled to length `len`, or `(len, 0)` when it is zero.
pub(crate) fn scale_vector(dx: i128, dy: i128, len: i64) -> (r: Point)
    requires
        -0x80_0000_0000_0000 <= dx <= 0x80_0000_0000_0000,
        -0x4000_0000_0000_0000 <= dy <= 0x4000_0000_0000_0000,
        0 <= len <= MAX_SPEED,
    ensures
        (r.x as int, r.y as int) == scaled_to(dx as int, dy as int, len as int),
        -len <= r.x <= len,
        -len <= r.y <= len,
{
    assert(0 <= dx * dx <= 0x4000_0000_0000_0000_0000_0000_0000) by (nonlinear_arith)
        requires
            -0x80_0000_0000_0000 <= dx <= 0x80_0000_0000_0000,
    ;
    assert(0 <= dy * dy <= 0x1000_0000_0000_0000_0000_0000_0000_0000) by (nonlinear_arith)
        requires
            -0x4000_0000_0000_0000 <= dy <= 0x4000_0000_0000_0000,
    ;
    let n = isqrt((dx * dx + dy * dy) as u128);
    if n == 0 {
        return Point { x: len, y: 0 };
    }
    proof {
        lemma_component_le_norm(dx as int, dy as int, n as int);
        lemma_component_le_norm(dy as int, dx as int, n as int);
        lemma_scaled_component(dx as int, len as int, n as int);
        lemma_scaled_component(dy as int, len as int, n as int);
    }
    assert(-0x8000_0000_0000_0000_0000_0000 <= dx * (len as i128) <= 0x8000_0000_0000_0000_0000_0000)
        by (nonlinear_arith)
        requires
            -0x80_0000_0000_0000 <= dx <= 0x80_0000_0000_0000,
            0 <= len <= 0x4000_0000,
    ;
    assert(-0x8000_0000_0000_0000_0000_0000_0000 <= dy * (len as i128)
        <= 0x8000_0000_0000_0000_0000_0000_0000) by (nonlinear_arith)
        requires
            -0x4000_0000_0000_0000 <= dy <= 0x4000_0000_0000_0000,
            0 <= len <= 0x4000_0000,
    ;
    let x = div_trunc_i128(dx * (len as i128), n as i128);
    let y = div_trunc_i128(dy * (len as i128), n as i128);
    Point { x: x as i64, y: y as i64 }
}

/// The unnormalised launch direction toward `target`, or `None` when the target is out of
/// reach at `speed`.
fn solve_direction(launch_pos: Point, target: Point, speed: u32, use_direct_aim: bool) -> (r:
    Option<(i128, i128)>)
    requires
        in_world(launch_pos),
        in_world(target),
        speed <= MAX_SPEED,
    ensures
        r is None <==> discriminant(target.x - launch_pos.x, target.y - launch_pos.y, speed as int) < 0,
        r matches Some(d) ==> shot_direction(
            target.x - launch_pos.x,
            target.y - launch_pos.y,
            speed as int,
            use_direct_aim,
        ) == (d.0 as int, d.1 as int),
        r matches Some(d) ==> -0x80_0000_0000_0000 <= d.0 <= 0x80_0000_0000_0000
            && -0x4000_0000_0000_0000 <= d.1 <= 0x4000_0000_0000_0000,
{
    let xp = target.x as i128 - launch_pos.x as i128;
    let y = target.y as i128 - launch_pos.y as i128;
    let disc = compute_discriminant(xp, y, speed);
    if disc < 0 {
        return None;
    }
    let root = isqrt(disc as u128) as i128;
    assert(root <= 0x2000_0000_0000_0000) by {
        if root > 0x2000_0000_0000_0000 {
            assert(root * root > 0x400_0000_0000_0000_0000_0000_0000_0000) by (nonlinear_arith)
                requires
                    root > 0x2000_0000_0000_0000,
            ;
        }
    }
    assert(0 <= (speed as i128) * (speed as i128) <= 0x1000_0000_0000_0000) by (nonlinear_arith)
        requires
            speed <= 0x4000_0000,
    ;
    let v2 = (speed as i128) * (speed as i128);
    let dx = GRAVITY as i128 * xp;
    let dy = if use_direct_aim {
        v2 - root
    } else {
        v2 + root
    };
    Some((dx, dy))
}

/// The unit launch direction (scaled to `CELL`) that sends a body at `speed` from `launch_pos`
/// through `target`, or `None` when the target is out of reach at that speed.
/// `use_direct_aim` picks the low arc.
pub fn calculate_shot_for_target(launch_pos: Point, target: Point, speed: u32, use_direct_aim: bool) -> (r:
    Option<Point>)
    requires
        in_world(launch_pos),
        in_world(target),
        speed <= MAX_SPEED,
    ensures
        r.is_none() <==> discriminant(target.x - launch_pos.x, target.y - launch_pos.y, speed as int)
            < 0,
        r matches Some(p) ==> shot_unit(
            target.x - launch_pos.x,
            target.y - launch_pos.y,
            speed as int,
            use_direct_aim,
        ) == Some((p.x as int, p.y as int)),
        r matches Some(p) ==> -CELL <= p.x <= CELL && -CELL <= p.y <= CELL,
{
    match solve_direction(launch_pos, target, speed, use_direct_aim) {
        None => None,
        Some(d) => Some(scale_vector(d.0, d.1, CELL)),
    }
}


/// The launch direction found for a reachable target solves the arc equation: its residual
/// is `⌊√disc⌋² − disc`, so it is zero when the discriminant is a perfect square and
/// otherwise lies within one step of the square root (`−(2⌊√disc⌋ + 1) < residual ≤ 0`).
pub proof fn lemma_shot_solves_arc(xp: int, y: int, v: int, direct: bool)
    requires
        discriminant(xp, y, v) >= 0,
    ensures
        ({
            let d = discriminant(xp, y, v);
            let r = isqrt_of(d);
            let s = shot_direction(xp, y, v, direct).1;
            &&& arc_residual(xp, y, v, s) == r * r - d
            &&& -(2 * r + 1) < arc_residual(xp, y, v, s) <= 0
            &&& (r * r == d ==> arc_residual(xp, y, v, s) == 0)
        }),
{
    let d = discriminant(xp, y, v);
    crate::fixed::lemma_isqrt_exists(d);
    let r = isqrt_of(d);
    let s = shot_direction(xp, y, v, direct).1;
    let u = v * v;
    assert(s == u - r || s == u + r);
    assert(arc_residual(xp, y, v, s) == (s - u) * (s - u) - u * u + GRAVITY * GRAVITY * xp * xp + 2
        * GRAVITY * u * y) by (nonlinear_arith)
        requires
            u == v * v,
    ;
    assert((s - u) * (s - u) == r * r) by (nonlinear_arith)
        requires
            s == u - r || s == u + r,
    ;
    assert(d == u * u - GRAVITY * GRAVITY * xp * xp - 2 * GRAVITY * u * y) by (nonlinear_arith)
        requires
            u == v * v,
            d == discriminant(xp, y, v),
    ;
    assert((r + 1) * (r + 1) == r * r + 2 * r + 1) by (nonlinear_arith);
}

/// The smallest speed `k · SPEED_STEP` with `first <= k < SPEED_SEARCH_CAP` that reaches the
/// offset `(xp, y)`, if any. The search for a launch starts at `first = 1`, the least positive
/// speed of the grid.
pub open spec fn first_reaching_speed(xp: int, y: int, first: int) -> Option<int>
    decreases SPEED_SEARCH_CAP - first,
{
    if first < 0 || first >= SPEED_SEARCH_CAP {
        None
    } else if discriminant(xp, y, first * SPEED_STEP) >= 0 {
        Some(first * SPEED_STEP)
    } else {
        first_reaching_speed(xp, y, first + 1)
    }
}

/// The least positive speed of the search grid at which `target` can be reached from
/// `launch_pos`.
pub fn minimum_launch_speed(launch_pos: Point, target: Point) -> (r: Option<u32>)
    requires
        in_world(launch_pos),
        in_world(target),
    ensures
        r matches Some(v) ==> first_reaching_speed(target.x - launch_pos.x, target.y - launch_pos.y, 1)
            == Some(v as int),
        r is None ==> first_reaching_speed(target.x - launch_pos.x, target.y - launch_pos.y, 1)
            is None,
        r matches Some(v) ==> SPEED_STEP <= v < SPEED_STEP * SPEED_SEARCH_CAP,
{
    let xp = target.x as i128 - launch_pos.x as i128;
    let y = target.y as i128 - launch_pos.y as i128;
    let mut k: u32 = 1;
    while k < SPEED_SEARCH_CAP
        invariant
            1 <= k <= SPEED_SEARCH_CAP,
            xp == target.x - launch_pos.x,
            y == target.y - launch_pos.y,
            -2 * WORLD <= xp <= 2 * WORLD,
            -2 * WORLD <= y <= 2 * WORLD,
            first_reaching_speed(xp as int, y as int, k as int) == first_reaching_speed(
                xp as int,
                y as int,
                1,
            ),
        decreases SPEED_SEARCH_CAP - k,
    {
        let v = k * SPEED_STEP;
        if compute_discriminant(xp, y, v) >= 0 {
            return Some(v);
        }
        k = k + 1;
    }
    None
}

/// A speed the search returns reaches the target and is at least the first speed tried.
pub proof fn lemma_first_reaching_speed(xp: int, y: int, first: int)
    ensures
        first_reaching_speed(xp, y, first) matches Some(v) ==> discriminant(xp, y, v) >= 0 && v
            >= first * SPEED_STEP && first >= 0,
    decreases SPEED_SEARCH_CAP - first,
{
    if 0 <= first < SPEED_SEARCH_CAP && discriminant(xp, y, first * SPEED_STEP) < 0 {
        lemma_first_reaching_speed(xp, y, first + 1);
    }
}

/// Straight above the launch point, a speed reaches the target exactly when `v² ≥ 2·g·y`,
/// and both arcs then point straight up.
pub proof fn lemma_vertical_shot(y: int, v: int, direct: bool)
    requires
        y > 0,
        v > 0,
    ensures
        discriminant(0, y, v) >= 0 <==> v * v >= 2 * GRAVITY * y,
        discriminant(0, y, v) >= 0 ==> shot_unit(0, y, v, direct) == Some((0int, CELL as int)),
{
    let u = v * v;
    assert(u > 0) by (nonlinear_arith)
        requires
            v > 0,
            u == v * v,
    ;
    let d = discriminant(0, y, v);
    assert(d == u * (u - 2 * GRAVITY * y)) by (nonlinear_arith)
        requires
            u == v * v,
            d == discriminant(0, y, v),
    ;
    assert(d >= 0 <==> u >= 2 * GRAVITY * y) by (nonlinear_arith)
        requires
            u > 0,
            d == u * (u - 2 * GRAVITY * y),
    ;
    if d >= 0 {
        crate::fixed::lemma_isqrt_exists(d);
        let r = isqrt_of(d);
        assert(r < u) by {
            if r >= u {
                assert(r * r >= u * u) by (nonlinear_arith)
                    requires
                        r >= u,
                        u > 0,
                ;
                assert(d < u * u) by (nonlinear_arith)
                    requires
                        d == u * (u - 2 * GRAVITY * y),
                        u > 0,
                        y > 0,
                ;
            }
        }
        let s = shot_direction(0, y, v, direct).1;
        assert(s > 0);
        assert(0 * 0 + s * s == s * s);
        assert(s * s < (s + 1) * (s + 1)) by (nonlinear_arith)
            requires
                s > 0,
        ;
        assert(s * s >= 0) by (nonlinear_arith);
        crate::fixed::lemma_isqrt_unique(s * s, s);
        assert(shot_direction(0, y, v, direct).0 == 0);
        assert(0 * CELL == 0);
        assert(s * CELL / s == CELL) by (nonlinear_arith)
            requires
                s > 0,
        ;
        assert(0int / s == 0) by (nonlinear_arith)
            requires
                s > 0,
        ;
    }
}

} // verus!
