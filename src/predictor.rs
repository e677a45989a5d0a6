use vstd::prelude::*;

use crate::ballistic::{scale_vector, scaled_to, GRAVITY};
use crate::fixed::{div_trunc, div_trunc_i128, CELL};
use crate::geometry::{in_world, Point, WORLD};
use crate::magnetic::{bodies_ok, net_impulse, net_magnetic_impulse, MagnetBody, MagneticEffect};

verus! {

/// Ticks a forecast covers at most: two seconds at 60 ticks per second.
pub const MAX_TICKS: u32 = 120;

/// Distance from the start a launched block travels inside the barrel, in micro-cells.
pub const BARREL_LENGTH: i64 = 3_500_000;

/// Fractions of a tick in which a cast's time of impact is given.
pub const TOI_SCALE: i64 = 1_000_000;

/// How a body moves: position and linear velocity (micro-cells, per tick), angle and angular
/// velocity (micro-radians, per tick).
#[derive(Clone, Copy, Debug, PartialEq, Eq, Structural)]
pub struct Motion {
    pub pos: Point,
    pub linvel: Point,
    pub angle: i64,
    pub angvel: i64,
}

/// The answer of the physics backend's swept-shape cast for one tick: the time of impact in
/// millionths of the tick, and whether the body hit counts as an obstacle (it does not while
/// it is itself still falling).
#[derive(Clone, Copy, Debug, PartialEq, Eq, Structural)]
pub struct CastHit {
    pub toi: u32,
    pub blocking: bool,
}

/// One pose of a forecast path and the ticks elapsed when the body reaches it.
#[derive(Clone, Copy, Debug, PartialEq, Eq, Structural)]
pub struct TrajectorySample {
    pub pos: Point,
    pub angle: i64,
    pub tick: u32,
}

/// The state of a forecast between ticks.
#[derive(Clone, Copy, Debug, PartialEq, Eq, Structural)]
pub struct Forecast {
    pub origin: Point,
    pub motion: Motion,
    pub tick: u32,
    pub hit: bool,
    pub done: bool,
    pub barrel_direction: Option<Point>,
    pub exits_barrel_after: u32,
}

/// A forecast and the path it has produced so far.
#[derive(Debug)]
pub struct Prediction {
    pub state: Forecast,
    pub steps: Vec<TrajectorySample>,
}

/// A magnitude bounded by the world's size.
pub open spec fn in_range(v: int) -> bool {
    -WORLD <= v <= WORLD
}

/// The motion can be stepped without overflow.
pub open spec fn motion_ok(m: Motion) -> bool {
    in_world(m.pos) && in_world(m.linvel) && in_range(m.angle as int) && in_range(m.angvel as int)
}

/// A forecast still running holds a motion that can be stepped and has ticks left.
pub open spec fn forecast_ok(f: Forecast) -> bool {
    &&& in_world(f.origin)
    &&& f.tick <= MAX_TICKS
    &&& !f.done ==> motion_ok(f.motion) && f.tick < MAX_TICKS
}

/// The forecast a launch starts from.
pub open spec fn start_forecast(start: Motion) -> Forecast {
    Forecast {
        origin: start.pos,
        motion: start,
        tick: 0,
        hit: false,
        done: false,
        barrel_direction: None,
        exits_barrel_after: 0,
    }
}

/// The body has left the barrel: it is farther than the barrel's length from the origin.
pub open spec fn beyond_barrel(origin: Point, p: Point) -> bool {
    (p.x - origin.x) * (p.x - origin.x) + (p.y - origin.y) * (p.y - origin.y) > BARREL_LENGTH
        * BARREL_LENGTH
}

/// One tick of a forecast, given the backend's cast for it, the magnetic impulse on the body
/// and the body's mass. A blocking hit moves the body to the point of impact and ends the
/// forecast. Otherwise the velocity takes the impulse and gravity before the position moves
/// (semi-implicit Euler), the first tick beyond the barrel is recorded, and the new pose is
/// added to the path; the forecast ends after `MAX_TICKS` ticks, or when the motion would
/// leave the world.
pub open spec fn advance(f: Forecast, cast: Option<CastHit>, impulse: (int, int), mass: int) -> (
    Forecast,
    Option<TrajectorySample>,
) {
    let m = f.motion;
    let blocked = cast matches Some(c) && c.blocking;
    let toi: int = match cast {
        Some(c) => c.toi as int,
        None => 0,
    };
    if blocked {
        let p = Point {
            x: (m.pos.x + div_trunc(m.linvel.x * toi, TOI_SCALE as int)) as i64,
            y: (m.pos.y + div_trunc(m.linvel.y * toi, TOI_SCALE as int)) as i64,
        };
        (Forecast { motion: Motion { pos: p, ..m }, hit: true, done: true, ..f }, None)
    } else {
        let vx = m.linvel.x + div_trunc(impulse.0, mass);
        let vy = m.linvel.y + div_trunc(impulse.1, mass) - GRAVITY;
        let px = m.pos.x + vx;
        let py = m.pos.y + vy;
        let a = m.angle + m.angvel;
        if !(in_range(vx) && in_range(vy) && in_range(px) && in_range(py) && in_range(a)) {
            (Forecast { done: true, ..f }, None)
        } else {
            let np = Point { x: px as i64, y: py as i64 };
            let motion = Motion { pos: np, linvel: Point { x: vx as i64, y: vy as i64 }, angle: a as i64, ..m };
            let exits = f.barrel_direction is None && beyond_barrel(f.origin, np);
            let d = scaled_to(px - f.origin.x, py - f.origin.y, CELL as int);
            let g = Forecast {
                motion,
                tick: (f.tick + 1) as u32,
                done: f.tick + 1 >= MAX_TICKS,
                barrel_direction: if exits {
                    Some(Point { x: d.0 as i64, y: d.1 as i64 })
                } else {
                    f.barrel_direction
                },
                exits_barrel_after: if exits {
                    f.tick
                } else {
                    f.exits_barrel_after
                },
                ..f
            };
            (g, Some(TrajectorySample { pos: np, angle: a as i64, tick: (f.tick + 1) as u32 }))
        }
    }
}

/// The impulse the magnets give a body at `pos` carrying `own`.
pub open spec fn field_impulse(pos: Point, own: Option<MagneticEffect>, magnets: Seq<MagnetBody>) -> (int, int) {
    net_impulse(MagnetBody { pos, magnet: own }, magnets, magnets.len() as int)
}


/// The barrel record marks the first pose of the path beyond the barrel: with no record, no
/// pose is beyond it; with one, the pose after `exits_barrel_after` ticks is the first beyond.
pub open spec fn barrel_record_ok(f: Forecast, path: Seq<TrajectorySample>) -> bool {
    match f.barrel_direction {
        None => forall|i: int| 0 <= i < path.len() ==> !beyond_barrel(f.origin, #[trigger] path[i].pos),
        Some(_) => {
            &&& f.exits_barrel_after < path.len()
            &&& beyond_barrel(f.origin, path[f.exits_barrel_after as int].pos)
            &&& forall|i: int|
                0 <= i < f.exits_barrel_after ==> !beyond_barrel(f.origin, #[trigger] path[i].pos)
        },
    }
}

/// The path holds one pose per tick elapsed, and the barrel record marks its first pose
/// beyond the barrel.
pub open spec fn prediction_ok(p: &Prediction) -> bool {
    forecast_ok(p.state) && p.steps@.len() == p.state.tick && barrel_record_ok(p.state, p.steps@)
}

/// A forecast run for up to `fuel` more ticks with no obstacle, from state `f` with path
/// `path` so far: the final state and the whole path.
pub open spec fn run_unobstructed(
    f: Forecast,
    path: Seq<TrajectorySample>,
    own: Option<MagneticEffect>,
    magnets: Seq<MagnetBody>,
    mass: int,
    fuel: nat,
) -> (Forecast, Seq<TrajectorySample>)
    decreases fuel,
{
    if fuel == 0 || f.done {
        (f, path)
    } else {
        let (g, s) = advance(f, None, field_impulse(f.motion.pos, own, magnets), mass);
        let next = match s {
            Some(x) => path.push(x),
            None => path,
        };
        run_unobstructed(g, next, own, magnets, mass, (fuel - 1) as nat)
    }
}

impl Prediction {
    /// A forecast that has not stepped yet, starting from `start`.
    pub fn new(start: Motion) -> (r: Prediction)
        requires
            motion_ok(start),
        ensures
            r.state == start_forecast(start),
            r.steps@.len() == 0,
            prediction_ok(&r),
    {
        Prediction {
            state: Forecast {
                origin: start.pos,
                motion: start,
                tick: 0,
                hit: false,
                done: false,
                barrel_direction: None,
                exits_barrel_after: 0,
            },
            steps: Vec::new(),
        }
    }

    /// Advances the forecast by one tick, given the backend's cast for this tick, the body's
    /// mass, the magnet it carries and the magnets around it.
    pub fn step(
        &mut self,
        cast: Option<CastHit>,
        mass: u64,
        own: Option<MagneticEffect>,
        magnets: &Vec<MagnetBody>,
    )
        requires
            prediction_ok(old(self)),
            !old(self).state.done,
            mass >= 1,
            bodies_ok(magnets@),
            cast matches Some(c) ==> c.toi <= TOI_SCALE,
        ensures
            prediction_ok(final(self)),
            (final(self).state, final(self).steps@) == stepped(
                old(self).state,
                old(self).steps@,
                cast,
                mass as int,
                own,
                magnets@,
            ),
    {
        let f = self.state;
        let m = f.motion;
        match cast {
            Some(c) => {
                if c.blocking {
                    assert(-0x100_0000_0000 * 0x10_0000 <= (m.linvel.x as i128) * (c.toi as i128)
                        <= 0x100_0000_0000 * 0x10_0000) by (nonlinear_arith)
                        requires
                            -0x100_0000_0000 <= m.linvel.x <= 0x100_0000_0000,
                            0 <= c.toi <= 1_000_000,
                    ;
                    assert(-0x100_0000_0000 * 0x10_0000 <= (m.linvel.y as i128) * (c.toi as i128)
                        <= 0x100_0000_0000 * 0x10_0000) by (nonlinear_arith)
                        requires
                            -0x100_0000_0000 <= m.linvel.y <= 0x100_0000_0000,
                            0 <= c.toi <= 1_000_000,
                    ;
                    let dx = div_trunc_i128((m.linvel.x as i128) * (c.toi as i128), TOI_SCALE as i128);
                    let dy = div_trunc_i128((m.linvel.y as i128) * (c.toi as i128), TOI_SCALE as i128);
                    proof {
                        crate::fixed::lemma_div_trunc_bound(
                            m.linvel.x * c.toi,
                            TOI_SCALE as int,
                            0x1000_0000_0000_0000int,
                        );
                        crate::fixed::lemma_div_trunc_bound(
                            m.linvel.y * c.toi,
                            TOI_SCALE as int,
                            0x1000_0000_0000_0000int,
                        );
                    }
                    let p = Point { x: (m.pos.x as i128 + dx) as i64, y: (m.pos.y as i128 + dy) as i64 };
                    self.state = Forecast { motion: Motion { pos: p, ..m }, hit: true, done: true, ..f };
                    return ;
                }
            },
            None => {},
        }
        let me = MagnetBody { pos: m.pos, magnet: own };
        let impulse = net_magnetic_impulse(&me, magnets);
        let vx = m.linvel.x as i128 + div_trunc_i128(impulse.x as i128, mass as i128);
        let vy = m.linvel.y as i128 + div_trunc_i128(impulse.y as i128, mass as i128) - GRAVITY as i128;
        proof {
            crate::fixed::lemma_div_trunc_bound(impulse.x as int, mass as int, 0x20_0000_0000_0000);
            crate::fixed::lemma_div_trunc_bound(impulse.y as int, mass as int, 0x20_0000_0000_0000);
        }
        let px = m.pos.x as i128 + vx;
        let py = m.pos.y as i128 + vy;
        let a = m.angle as i128 + m.angvel as i128;
        let w = WORLD as i128;
        if !(-w <= vx && vx <= w && -w <= vy && vy <= w && -w <= px && px <= w && -w <= py && py <= w
            && -w <= a && a <= w) {
            self.state = Forecast { done: true, ..f };
            return ;
        }
        let np = Point { x: px as i64, y: py as i64 };
        let motion = Motion {
            pos: np,
            linvel: Point { x: vx as i64, y: vy as i64 },
            angle: a as i64,
            ..m
        };
        let ox = px - f.origin.x as i128;
        let oy = py - f.origin.y as i128;
        assert(0 <= ox * ox <= 0x4_0000_0000_0000_0000_0000) by (nonlinear_arith)
            requires
                -0x200_0000_0000 <= ox <= 0x200_0000_0000,
        ;
        assert(0 <= oy * oy <= 0x4_0000_0000_0000_0000_0000) by (nonlinear_arith)
            requires
                -0x200_0000_0000 <= oy <= 0x200_0000_0000,
        ;
        let bl = BARREL_LENGTH as i128;
        let exits = f.barrel_direction.is_none() && ox * ox + oy * oy > bl * bl;
        let (barrel_direction, exits_barrel_after) = if exits {
            (Some(scale_vector(ox, oy, CELL)), f.tick)
        } else {
            (f.barrel_direction, f.exits_barrel_after)
        };
        let tick = f.tick + 1;
        self.state = Forecast {
            motion,
            tick,
            done: tick >= MAX_TICKS,
            barrel_direction,
            exits_barrel_after,
            ..f
        };
        self.steps.push(TrajectorySample { pos: np, angle: a as i64, tick });
    }
}


/// Forecasts a launch from `start` with no obstacle in the way: the body moves under gravity
/// and the magnets' pull until the tick cap, or until its motion would leave the world.
pub fn predict_unobstructed(
    start: Motion,
    mass: u64,
    own: Option<MagneticEffect>,
    magnets: &Vec<MagnetBody>,
) -> (r: Prediction)
    requires
        motion_ok(start),
        mass >= 1,
        bodies_ok(magnets@),
    ensures
        prediction_ok(&r),
        r.state.done,
        !r.state.hit,
        (r.state, r.steps@) == run_unobstructed(
            start_forecast(start),
            Seq::empty(),
            own,
            magnets@,
            mass as int,
            MAX_TICKS as nat,
        ),
{
    let mut p = Prediction::new(start);
    assert(p.steps@ =~= Seq::empty());
    let mut n: u32 = 0;
    while n < MAX_TICKS && !p.state.done
        invariant
            n <= MAX_TICKS,
            mass >= 1,
            bodies_ok(magnets@),
            prediction_ok(&p),
            !p.state.hit,
            !p.state.done ==> p.state.tick == n,
            run_unobstructed(p.state, p.steps@, own, magnets@, mass as int, (MAX_TICKS - n) as nat)
                == run_unobstructed(
                start_forecast(start),
                Seq::empty(),
                own,
                magnets@,
                mass as int,
                MAX_TICKS as nat,
            ),
        decreases MAX_TICKS - n,
    {
        p.step(None, mass, own, magnets);
        n = n + 1;
    }
    p
}

/// The pair of state and path that `Prediction::step` leaves, as its contract fixes it.
pub open spec fn stepped(
    state: Forecast,
    path: Seq<TrajectorySample>,
    cast: Option<CastHit>,
    mass: int,
    own: Option<MagneticEffect>,
    magnets: Seq<MagnetBody>,
) -> (Forecast, Seq<TrajectorySample>) {
    let (g, s) = advance(state, cast, field_impulse(state.motion.pos, own, magnets), mass);
    (g, match s {
        Some(x) => path.push(x),
        None => path,
    })
}

/// Two predictions that agree stay in agreement when each takes a step with the same cast,
/// mass and magnets: any states and paths that meet the contract of `Prediction::step` from
/// them are equal, so a forecast has no hidden input.
pub proof fn lemma_forecast_deterministic(
    first: (Forecast, Seq<TrajectorySample>),
    second: (Forecast, Seq<TrajectorySample>),
    first_after: (Forecast, Seq<TrajectorySample>),
    second_after: (Forecast, Seq<TrajectorySample>),
    cast: Option<CastHit>,
    mass: int,
    own: Option<MagneticEffect>,
    magnets: Seq<MagnetBody>,
)
    requires
        first == second,
        first_after == stepped(first.0, first.1, cast, mass, own, magnets),
        second_after == stepped(second.0, second.1, cast, mass, own, magnets),
    ensures
        first_after.0 == second_after.0,
        first_after.1 == second_after.1,
{
}

/// Whatever the inputs, a forecast without obstacles ends within the tick cap with one pose
/// per tick elapsed.
pub proof fn lemma_forecast_terminates(
    f: Forecast,
    path: Seq<TrajectorySample>,
    own: Option<MagneticEffect>,
    magnets: Seq<MagnetBody>,
    mass: int,
    fuel: nat,
)
    requires
        forecast_ok(f),
        path.len() == f.tick,
        f.done || fuel + f.tick >= MAX_TICKS,
    ensures
        ({
            let (g, p) = run_unobstructed(f, path, own, magnets, mass, fuel);
            &&& g.done
            &&& g.tick <= MAX_TICKS
            &&& p.len() == g.tick
        }),
    decreases fuel,
{
    if fuel > 0 && !f.done {
        let (g, s) = advance(f, None, field_impulse(f.motion.pos, own, magnets), mass);
        let next = match s {
            Some(x) => path.push(x),
            None => path,
        };
        lemma_forecast_terminates(g, next, own, magnets, mass, (fuel - 1) as nat);
    }
}


/// Whether a body reported by the swept-shape cast ends the forecast: not the forecast body
/// itself, not a sensor, and not a block that is still falling (the body may pass it on the
/// way to its rest point). `state` is the body's lifecycle state, `None` for a body that is
/// not a block (the floor, a base).
pub open spec fn obstacle(is_self: bool, is_sensor: bool, state: Option<crate::lifecycle::LifecycleState>) -> bool {
    !is_self && !is_sensor && state != Some(crate::lifecycle::LifecycleState::Falling)
}

/// Whether a body reported by the cast counts as an obstacle for the forecast.
pub fn is_obstacle(is_self: bool, is_sensor: bool, state: Option<crate::lifecycle::LifecycleState>) -> (r: bool)
    ensures
        r == obstacle(is_self, is_sensor, state),
{
    !is_self && !is_sensor && !matches!(state, Some(crate::lifecycle::LifecycleState::Falling))
}

} // verus!
