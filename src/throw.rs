use vstd::prelude::*;

use crate::ballistic::{
    calculate_shot_for_target, first_reaching_speed, lemma_first_reaching_speed, lemma_vertical_shot,
    minimum_launch_speed, shot_unit, GRAVITY, MAX_SPEED,
};
use crate::block::{Block, EffectType};
use crate::fixed::{div_trunc, div_trunc_i128, CELL};
use crate::geometry::{in_world, Point};
use crate::rng::{choose_weighted_effect, random_below};
use crate::shape::BlockType;

verus! {

/// A linear velocity in micro-cells per tick and an angular one in micro-radians per tick.
#[derive(Clone, Copy, Debug, PartialEq, Eq, Structural)]
pub struct Velocity {
    pub linvel: Point,
    pub angvel: i64,
}

/// The player's aim: a launch direction scaled to length `CELL`, the launch speed, the spin,
/// the extra power above the least speed (in thousandths) and the barrel-exit record of the
/// latest forecast.
#[derive(Clone, Copy, Debug, PartialEq, Eq, Structural)]
pub struct Aim {
    pub direction: Point,
    pub barrel_direction: Option<Point>,
    pub exits_barrel_after: u32,
    pub force_factor: i32,
    pub force: u32,
    pub rotation: i64,
}

/// What a level fixes for the blocks it hands out.
#[derive(Debug)]
pub struct Level {
    pub max_blocks: Option<usize>,
    pub enabled_effects: Vec<(EffectType, u32)>,
    /// Chance in thousandths that a block carries an effect.
    pub effect_likelihood: u32,
}

/// The blocks waiting to be thrown; the next one is the last of `queue`.
#[derive(Debug)]
pub struct ThrowQueue {
    pub target_length: usize,
    pub queue: Vec<Block>,
}

/// The direction is about one `CELL` long (its square at most twice `CELL²`) and the force
/// within the solver's bound.
pub open spec fn aim_ok(a: Aim) -> bool {
    &&& a.direction.x * a.direction.x + a.direction.y * a.direction.y <= 2 * CELL * CELL
    &&& a.force <= MAX_SPEED
}

proof fn lemma_direction_bounds(x: int, y: int)
    requires
        x * x + y * y <= 2 * CELL * CELL,
    ensures
        -2 * CELL <= x <= 2 * CELL,
        -2 * CELL <= y <= 2 * CELL,
{
    assert(-2_000_000 <= x <= 2_000_000) by (nonlinear_arith)
        requires
            x * x + y * y <= 2_000_000_000_000,
    ;
    assert(-2_000_000 <= y <= 2_000_000) by (nonlinear_arith)
        requires
            x * x + y * y <= 2_000_000_000_000,
    ;
}

/// The velocity a launch gives: the direction scaled by the force, and the spin.
pub open spec fn aim_velocity(a: Aim) -> (int, int, int) {
    (
        div_trunc(a.direction.x * a.force, CELL as int),
        div_trunc(a.direction.y * a.force, CELL as int),
        a.rotation as int,
    )
}

/// The force used once the least reaching speed `m` is known: `m + m·|factor| / 1000`.
pub open spec fn scaled_force(m: int, factor: int) -> int {
    m + m * (if factor < 0 { -factor } else { factor }) / 1000
}

/// The aim after pointing it from `launch` at `target`: the least positive reaching speed of
/// the grid,
/// raised by the force factor, and the unit direction of the shot at that speed (low arc when
/// the factor is positive). Where no speed reaches, or the raised one misses, the aim is kept.
pub open spec fn aimed_at(a: Aim, launch: Point, target: Point) -> Aim {
    let xp = target.x - launch.x;
    let y = target.y - launch.y;
    match first_reaching_speed(xp, y, 1) {
        None => a,
        Some(m) => {
            let f = scaled_force(m, a.force_factor as int);
            if f > MAX_SPEED {
                a
            } else {
                match shot_unit(xp, y, f, a.force_factor > 0) {
                    None => a,
                    Some(d) => Aim {
                        direction: Point { x: d.0 as i64, y: d.1 as i64 },
                        force: f as u32,
                        ..a
                    },
                }
            }
        },
    }
}

impl Aim {
    /// The aim a level starts with: 120 degrees from the x axis, a force of 500 cells per second.
    pub fn new() -> (r: Aim)
        ensures
            aim_ok(r),
            r.direction.x == -500_000,
            r.direction.y == 866_025,
            r.force == 8_333_333,
            r.barrel_direction is None,
            r.exits_barrel_after == 0,
            r.force_factor == 0,
            r.rotation == 0,
    {
        assert((-500_000int) * (-500_000int) + 866_025int * 866_025int <= 2 * CELL * CELL) by (nonlinear_arith);
        Aim {
            direction: Point { x: -500_000, y: 866_025 },
            barrel_direction: None,
            exits_barrel_after: 0,
            force_factor: 0,
            force: 8_333_333,
            rotation: 0,
        }
    }

    /// The velocity a launch with this aim gives.
    pub fn velocity(&self) -> (r: Velocity)
        requires
            aim_ok(*self),
        ensures
            (r.linvel.x as int, r.linvel.y as int, r.angvel as int) == aim_velocity(*self),
    {
        proof {
            lemma_direction_bounds(self.direction.x as int, self.direction.y as int);
        }
        assert(-0x40_0000_0000_0000 <= self.direction.x * self.force <= 0x40_0000_0000_0000) by (nonlinear_arith)
            requires
                -2_000_000 <= self.direction.x <= 2_000_000,
                0 <= self.force <= 0x4000_0000,
        ;
        assert(-0x40_0000_0000_0000 <= self.direction.y * self.force <= 0x40_0000_0000_0000) by (nonlinear_arith)
            requires
                -2_000_000 <= self.direction.y <= 2_000_000,
                0 <= self.force <= 0x4000_0000,
        ;
        let x = div_trunc_i128(self.direction.x as i128 * self.force as i128, CELL as i128);
        let y = div_trunc_i128(self.direction.y as i128 * self.force as i128, CELL as i128);
        proof {
            crate::fixed::lemma_div_trunc_bound(self.direction.x * self.force, CELL as int, 0x40_0000_0000_0000);
            crate::fixed::lemma_div_trunc_bound(self.direction.y * self.force, CELL as int, 0x40_0000_0000_0000);
        }
        Velocity { linvel: Point { x: x as i64, y: y as i64 }, angvel: self.rotation }
    }
}

/// Points the aim from `launch_pos` at `target`: finds the least speed of the search grid
/// that reaches it, raises it by the force factor and re-solves at that speed. Where the
/// target cannot be reached the aim is left as it was.
pub fn update_aim_for_target(aim: &mut Aim, launch_pos: Point, target: Point)
    requires
        aim_ok(*old(aim)),
        in_world(launch_pos),
        in_world(target),
    ensures
        aim_ok(*final(aim)),
        *final(aim) == aimed_at(*old(aim), launch_pos, target),
        target.x == launch_pos.x && target.y > launch_pos.y && (first_reaching_speed(0, target.y - launch_pos.y, 1) matches Some(m) && scaled_force(m, old(aim).force_factor as int) <= MAX_SPEED) ==> {
            &&& final(aim).force * final(aim).force >= 2 * GRAVITY * (target.y - launch_pos.y)
            &&& final(aim).direction == (Point { x: 0, y: CELL })
        },
{
    proof {
        if target.x == launch_pos.x && target.y > launch_pos.y {
            let y = target.y - launch_pos.y;
            lemma_first_reaching_speed(0, y, 1);
            if let Some(m) = first_reaching_speed(0, y, 1) {
                let f = scaled_force(m, aim.force_factor as int);
                let k = if aim.force_factor < 0 { -aim.force_factor } else { aim.force_factor as int };
                assert(m * k / 1000 >= 0) by (nonlinear_arith)
                    requires
                        m >= 0,
                        k >= 0,
                ;
                lemma_vertical_shot(y, m, aim.force_factor > 0);
                lemma_vertical_shot(y, f, aim.force_factor > 0);
                assert(f * f >= m * m) by (nonlinear_arith)
                    requires
                        f >= m,
                        m >= 0,
                ;
            }
        }
    }
    let min_force = match minimum_launch_speed(launch_pos, target) {
        None => return ,
        Some(m) => m,
    };
    let factor: i64 = aim.force_factor as i64;
    let magnitude: i64 = if factor < 0 {
        -factor
    } else {
        factor
    };
    assert(0 <= min_force * magnitude <= 1_000_000 * 0x8000_0000) by (nonlinear_arith)
        requires
            0 <= min_force <= 1_000_000,
            0 <= magnitude <= 0x8000_0000,
    ;
    let force: u64 = min_force as u64 + (min_force as u64 * magnitude as u64) / 1000;
    if force > MAX_SPEED as u64 {
        return ;
    }
    match calculate_shot_for_target(launch_pos, target, force as u32, aim.force_factor > 0) {
        None => {},
        Some(u) => {
            assert(u.x * u.x + u.y * u.y <= 2 * CELL * CELL) by (nonlinear_arith)
                requires
                    -1_000_000 <= u.x <= 1_000_000,
                    -1_000_000 <= u.y <= 1_000_000,
            ;
            aim.direction = u;
            aim.force = force as u32;
        },
    }
}


/// A level whose effect list is short enough to be weighed.
pub open spec fn level_ok(level: &Level) -> bool {
    level.enabled_effects@.len() <= u32::MAX
}

/// What holds of every block a level can hand out, whatever the draws: a variant from 1 to 5,
/// a start rotation of 0 to 3 quarter turns, and an effect only from the level's list and
/// only when effects can occur at all.
pub open spec fn item_ok(level: &Level, b: Block) -> bool {
    &&& 1 <= b.variant <= 5
    &&& b.initial_rotation < 4
    &&& (b.effect_type matches Some(e) ==> {
        &&& level.effect_likelihood > 0
        &&& crate::rng::total_weight(level.enabled_effects@) > 0
        &&& exists|i: int|
            0 <= i < level.enabled_effects@.len() && (#[trigger] level.enabled_effects@[i]).0 == e
    })
}

/// The blocks of a queue are all ones the level can hand out.
pub open spec fn queue_ok(level: &Level, q: Seq<Block>) -> bool {
    forall|i: int| 0 <= i < q.len() ==> item_ok(level, #[trigger] q[i])
}

/// Draws the next block of a level: an effect with the level's likelihood, chosen by its
/// weights, a random form, variant and start rotation.
pub fn throw_queue_item(level: &Level) -> (r: Block)
    requires
        level_ok(level),
    ensures
        item_ok(level, r),
        level.effect_likelihood >= 1000 && crate::rng::total_weight(level.enabled_effects@) > 0
            ==> r.effect_type is Some,
{
    let effect = if random_below(1000) < level.effect_likelihood {
        choose_weighted_effect(&level.enabled_effects)
    } else {
        None
    };
    proof {
        crate::rng::lemma_total_weight_nonneg(level.enabled_effects@);
    }
    let block = BlockType::random();
    let variant = 1 + random_below(5) as usize;
    let initial_rotation = random_below(4) as u8;
    Block::new(block, variant, effect, initial_rotation)
}

impl ThrowQueue {
    /// An empty queue kept three blocks long.
    pub fn new() -> (r: ThrowQueue)
        ensures
            r.target_length == 3,
            r.queue@.len() == 0,
    {
        ThrowQueue { target_length: 3, queue: Vec::new() }
    }
}

/// Resets the queue for a level: a level with a block budget gets all its blocks at once and
/// no refill; any other level is refilled to three blocks.
pub fn setup_throw_queue(throw_queue: &mut ThrowQueue, level: &Level)
    requires
        level_ok(level),
    ensures
        final(throw_queue).target_length == (if level.max_blocks is Some { 0usize } else { 3usize }),
        final(throw_queue).queue@.len() == (match level.max_blocks {
            Some(n) => n,
            None => 0,
        }),
        queue_ok(level, final(throw_queue).queue@),
{
    *throw_queue = ThrowQueue::new();
    match level.max_blocks {
        Some(max_blocks) => {
            let mut i: usize = 0;
            while i < max_blocks
                invariant
                    level_ok(level),
                    i <= max_blocks,
                    throw_queue.queue@.len() == i,
                    throw_queue.target_length == 3,
                    queue_ok(level, throw_queue.queue@),
                decreases max_blocks - i,
            {
                let item = throw_queue_item(level);
                throw_queue.queue.push(item);
                i = i + 1;
            }
            throw_queue.target_length = 0;
        },
        None => {
            throw_queue.target_length = 3;
        },
    }
}

/// Tops the queue up to its target length; the blocks already waiting stay where they are.
pub fn fill_throw_queue(throw_queue: &mut ThrowQueue, level: &Level)
    requires
        level_ok(level),
    ensures
        final(throw_queue).target_length == old(throw_queue).target_length,
        final(throw_queue).queue@.len() == (if old(throw_queue).queue@.len()
            < old(throw_queue).target_length {
            old(throw_queue).target_length as int
        } else {
            old(throw_queue).queue@.len() as int
        }),
        final(throw_queue).queue@.subrange(0, old(throw_queue).queue@.len() as int)
            == old(throw_queue).queue@,
        forall|i: int|
            old(throw_queue).queue@.len() <= i < final(throw_queue).queue@.len() ==> item_ok(
                level,
                #[trigger] final(throw_queue).queue@[i],
            ),
{
    let ghost start = throw_queue.queue@;
    while throw_queue.queue.len() < throw_queue.target_length
        invariant
            level_ok(level),
            throw_queue.target_length == old(throw_queue).target_length,
            start == old(throw_queue).queue@,
            start.len() <= throw_queue.queue@.len(),
            start.len() < throw_queue.target_length ==> throw_queue.queue@.len()
                <= throw_queue.target_length,
            start.len() >= throw_queue.target_length ==> throw_queue.queue@.len() == start.len(),
            throw_queue.queue@.subrange(0, start.len() as int) == start,
            forall|i: int|
                start.len() <= i < throw_queue.queue@.len() ==> item_ok(
                    level,
                    #[trigger] throw_queue.queue@[i],
                ),
        decreases throw_queue.target_length - throw_queue.queue@.len(),
    {
        let item = throw_queue_item(level);
        throw_queue.queue.push(item);
        assert(throw_queue.queue@.subrange(0, start.len() as int) =~= start);
    }
}


/// The aim keys held during a tick.
#[derive(Clone, Copy, Debug, PartialEq, Eq, Structural)]
pub struct AimKeys {
    pub left: bool,
    pub right: bool,
    pub up: bool,
    pub down: bool,
    pub spin_left: bool,
    pub spin_right: bool,
}

/// Cosine and sine of the turn the direction makes per tick a key is held (0.005 rad), scaled
/// by `CELL` and rounded so that the turn never lengthens the direction.
pub const TURN_COS: i64 = 999_987;
pub const TURN_SIN: i64 = 5_000;

/// Change of the force factor per tick a key is held, in thousandths.
pub const FORCE_FACTOR_STEP: i32 = 2_000;

/// Change of the spin per tick a key is held, in micro-radians per tick (0.0125 rad/s).
pub const SPIN_STEP: i64 = 208;

/// The direction `(x, y)` turned by the angle with cosine `c` and sine `s` (scaled by `CELL`).
pub open spec fn turned(x: int, y: int, c: int, s: int) -> (int, int) {
    (div_trunc(c * x - s * y, CELL as int), div_trunc(s * x + c * y, CELL as int))
}

/// `v` moved by `step`, held within the type's bounds.
pub open spec fn bounded_add(v: int, step: int, lo: int, hi: int) -> int {
    if v + step > hi {
        hi
    } else if v + step < lo {
        lo
    } else {
        v + step
    }
}

/// The aim after one tick with `keys` held: left turns the direction counter-clockwise, else
/// right turns it clockwise; up raises the force factor, else down lowers it; one spin key
/// changes the spin.
pub open spec fn aim_after_keys(a: Aim, keys: AimKeys) -> Aim {
    let d = if keys.left {
        turned(a.direction.x as int, a.direction.y as int, TURN_COS as int, TURN_SIN as int)
    } else if keys.right {
        turned(a.direction.x as int, a.direction.y as int, TURN_COS as int, -TURN_SIN)
    } else {
        (a.direction.x as int, a.direction.y as int)
    };
    let ff = if keys.up {
        bounded_add(a.force_factor as int, FORCE_FACTOR_STEP as int, i32::MIN as int, i32::MAX as int)
    } else if keys.down {
        bounded_add(a.force_factor as int, -FORCE_FACTOR_STEP, i32::MIN as int, i32::MAX as int)
    } else {
        a.force_factor as int
    };
    let spin = if keys.spin_left {
        bounded_add(a.rotation as int, SPIN_STEP as int, i64::MIN as int, i64::MAX as int)
    } else if keys.spin_right {
        bounded_add(a.rotation as int, -SPIN_STEP, i64::MIN as int, i64::MAX as int)
    } else {
        a.rotation as int
    };
    Aim {
        direction: Point { x: d.0 as i64, y: d.1 as i64 },
        force_factor: ff as i32,
        rotation: spin as i64,
        ..a
    }
}

proof fn lemma_trunc_square(a: int, d: int)
    requires
        d > 0,
    ensures
        div_trunc(a, d) * div_trunc(a, d) * (d * d) <= a * a,
{
    let q = div_trunc(a, d);
    let b = if a >= 0 { a } else { -a };
    let qb = b / d;
    assert(0 <= qb * d <= b) by (nonlinear_arith)
        requires
            d > 0,
            b >= 0,
            qb == b / d,
    ;
    assert(q == qb || q == -qb);
    assert(q * q == qb * qb) by (nonlinear_arith)
        requires
            q == qb || q == -qb,
    ;
    assert(qb * d * (qb * d) <= b * b) by (nonlinear_arith)
        requires
            0 <= qb * d <= b,
    ;
    assert(qb * qb * (d * d) == qb * d * (qb * d)) by (nonlinear_arith);
    assert(b * b == a * a) by (nonlinear_arith)
        requires
            b == a || b == -a,
    ;
}

proof fn lemma_turn_keeps_length(x: int, y: int, c: int, s: int)
    requires
        c * c + s * s <= CELL * CELL,
    ensures
        ({
            let t = turned(x, y, c, s);
            t.0 * t.0 + t.1 * t.1 <= x * x + y * y
        }),
{
    let a = c * x - s * y;
    let b = s * x + c * y;
    let t = turned(x, y, c, s);
    let d = CELL as int;
    lemma_trunc_square(a, d);
    lemma_trunc_square(b, d);
    lemma_square_of_sum(c * x, -(s * y));
    lemma_square_of_sum(s * x, c * y);
    lemma_product_swap(c, x, c, x);
    lemma_product_swap(s, y, s, y);
    lemma_product_swap(s, x, s, x);
    lemma_product_swap(c, y, c, y);
    lemma_product_swap(c, x, s, y);
    lemma_product_swap(s, x, c, y);
    assert(a == c * x + -(s * y));
    assert((c * x) * (-(s * y)) == -((c * x) * (s * y))) by (nonlinear_arith);
    assert((-(s * y)) * (-(s * y)) == (s * y) * (s * y)) by (nonlinear_arith);
    assert((c * c + s * s) * (x * x + y * y) == c * c * (x * x) + c * c * (y * y) + s * s * (x * x) + s
        * s * (y * y)) by (nonlinear_arith);
    assert((c * c + s * s) * (x * x + y * y) <= d * d * (x * x + y * y)) by (nonlinear_arith)
        requires
            c * c + s * s <= d * d,
    ;
    assert((t.0 * t.0 + t.1 * t.1) * (d * d) <= d * d * (x * x + y * y)) by (nonlinear_arith)
        requires
            t.0 * t.0 * (d * d) <= a * a,
            t.1 * t.1 * (d * d) <= b * b,
            a * a + b * b <= d * d * (x * x + y * y),
    ;
    assert(t.0 * t.0 + t.1 * t.1 <= x * x + y * y) by (nonlinear_arith)
        requires
            (t.0 * t.0 + t.1 * t.1) * (d * d) <= d * d * (x * x + y * y),
            d > 0,
    ;
}

proof fn lemma_square_of_sum(p: int, q: int)
    ensures
        (p + q) * (p + q) == p * p + 2 * (p * q) + q * q,
{
    assert((p + q) * (p + q) == p * p + 2 * (p * q) + q * q) by (nonlinear_arith);
}

proof fn lemma_product_swap(a: int, b: int, c: int, d: int)
    ensures
        (a * b) * (c * d) == (a * c) * (b * d),
{
    assert((a * b) * (c * d) == (a * c) * (b * d)) by (nonlinear_arith);
}

fn turn(dir: Point, c: i64, s: i64) -> (r: Point)
    requires
        dir.x * dir.x + dir.y * dir.y <= 2 * CELL * CELL,
        c * c + s * s <= CELL * CELL,
        -CELL <= c <= CELL,
        -CELL <= s <= CELL,
    ensures
        (r.x as int, r.y as int) == turned(dir.x as int, dir.y as int, c as int, s as int),
        r.x * r.x + r.y * r.y <= 2 * CELL * CELL,
{
    proof {
        lemma_direction_bounds(dir.x as int, dir.y as int);
        lemma_turn_keeps_length(dir.x as int, dir.y as int, c as int, s as int);
    }
    let x = dir.x as i128;
    let y = dir.y as i128;
    let c2 = c as i128;
    let s2 = s as i128;
    assert(-0x200_0000_0000 <= c2 * x <= 0x200_0000_0000) by (nonlinear_arith)
        requires
            -2_000_000 <= x <= 2_000_000,
            -1_000_000 <= c2 <= 1_000_000,
    ;
    assert(-0x200_0000_0000 <= s2 * y <= 0x200_0000_0000) by (nonlinear_arith)
        requires
            -2_000_000 <= y <= 2_000_000,
            -1_000_000 <= s2 <= 1_000_000,
    ;
    assert(-0x200_0000_0000 <= s2 * x <= 0x200_0000_0000) by (nonlinear_arith)
        requires
            -2_000_000 <= x <= 2_000_000,
            -1_000_000 <= s2 <= 1_000_000,
    ;
    assert(-0x200_0000_0000 <= c2 * y <= 0x200_0000_0000) by (nonlinear_arith)
        requires
            -2_000_000 <= y <= 2_000_000,
            -1_000_000 <= c2 <= 1_000_000,
    ;
    let nx = div_trunc_i128(c2 * x - s2 * y, CELL as i128);
    let ny = div_trunc_i128(s2 * x + c2 * y, CELL as i128);
    proof {
        crate::fixed::lemma_div_trunc_bound(c2 * x - s2 * y, CELL as int, 0x400_0000_0000int);
        crate::fixed::lemma_div_trunc_bound(s2 * x + c2 * y, CELL as int, 0x400_0000_0000int);
    }
    Point { x: nx as i64, y: ny as i64 }
}

/// Applies the aim keys held during one tick.
pub fn update_aim_keys(aim: &mut Aim, keys: AimKeys)
    requires
        aim_ok(*old(aim)),
    ensures
        aim_ok(*final(aim)),
        *final(aim) == aim_after_keys(*old(aim), keys),
{
    assert(TURN_COS * TURN_COS + TURN_SIN * TURN_SIN <= CELL * CELL) by (nonlinear_arith);
    if keys.left {
        aim.direction = turn(aim.direction, TURN_COS, TURN_SIN);
    } else if keys.right {
        aim.direction = turn(aim.direction, TURN_COS, -TURN_SIN);
    }
    if keys.up {
        aim.force_factor = if aim.force_factor > i32::MAX - FORCE_FACTOR_STEP {
            i32::MAX
        } else {
            aim.force_factor + FORCE_FACTOR_STEP
        };
    } else if keys.down {
        aim.force_factor = if aim.force_factor < i32::MIN + FORCE_FACTOR_STEP {
            i32::MIN
        } else {
            aim.force_factor - FORCE_FACTOR_STEP
        };
    }
    if keys.spin_left {
        aim.rotation = if aim.rotation > i64::MAX - SPIN_STEP {
            i64::MAX
        } else {
            aim.rotation + SPIN_STEP
        };
    } else if keys.spin_right {
        aim.rotation = if aim.rotation < i64::MIN + SPIN_STEP {
            i64::MIN
        } else {
            aim.rotation - SPIN_STEP
        };
    }
}


/// Moves the force factor by `delta` thousandths (a turn of the mouse wheel), held within the
/// bounds of its type.
pub fn adjust_force_factor(aim: &mut Aim, delta: i32)
    ensures
        final(aim).force_factor == bounded_add(
            old(aim).force_factor as int,
            delta as int,
            i32::MIN as int,
            i32::MAX as int,
        ),
        *final(aim) == (Aim { force_factor: final(aim).force_factor, ..*old(aim) }),
{
    let sum = aim.force_factor as i64 + delta as i64;
    aim.force_factor = if sum > i32::MAX as i64 {
        i32::MAX
    } else if sum < i32::MIN as i64 {
        i32::MIN
    } else {
        sum as i32
    };
}


impl Aim {
    /// Keeps the barrel-exit record of a forecast: where and after how many ticks the body
    /// leaves the barrel.
    pub fn record_barrel_exit(&mut self, forecast: &crate::predictor::Forecast)
        ensures
            *final(self) == (Aim {
                barrel_direction: forecast.barrel_direction,
                exits_barrel_after: forecast.exits_barrel_after,
                ..*old(self)
            }),
    {
        self.barrel_direction = forecast.barrel_direction;
        self.exits_barrel_after = forecast.exits_barrel_after;
    }
}

} // verus!
