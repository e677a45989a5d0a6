use vstd::prelude::*;

use crate::block::Block;
use crate::geometry::Point;
use crate::throw::{aim_ok, aim_velocity, Aim, ThrowQueue, Velocity};

verus! {

/// Where a block stands in its life.
#[derive(Clone, Copy, Debug, PartialEq, Eq, Structural)]
pub enum LifecycleState {
    Aiming,
    Falling,
    Settled,
    Destroyed,
}

/// What can happen to a block in one tick.
#[derive(Clone, Copy, Debug, PartialEq, Eq, Structural)]
pub enum BlockEvent {
    /// The player launched.
    Launch,
    /// The physics step ended with this linear (micro-cells per tick) and angular
    /// (micro-radians per tick) velocity.
    Moved { linvel: Point, angvel: i64 },
    /// The block touched a body that destroys blocks on contact.
    DestroyingContact,
    /// The block fell below the floor plane.
    BelowFloor,
}

/// What the caller has to do after a transition.
#[derive(Clone, Copy, Debug, PartialEq, Eq, Structural)]
pub enum BlockAction {
    Nothing,
    /// Make the body dynamic with the aim's velocity and report a thrown block.
    Throw,
    /// The block came to rest: hand it to the bonding solver.
    Settle,
    /// Remove the block, spawn its debris and report a destroyed block.
    Shatter,
    /// Remove the block without a report.
    Despawn,
}

/// Ticks per second of the fixed physics step.
pub const TICKS_PER_SECOND: i64 = 60;

/// A falling block settles below this linear speed, in micro-cells per second.
pub const SETTLE_LINEAR_SPEED: i64 = 100_000;

/// A falling block settles below this angular speed, in micro-radians per second.
pub const SETTLE_ANGULAR_SPEED: i64 = 100_000;

/// The velocity is below both settling thresholds.
pub open spec fn is_still(linvel: Point, angvel: i64) -> bool {
    &&& TICKS_PER_SECOND * TICKS_PER_SECOND * (linvel.x * linvel.x + linvel.y * linvel.y)
        < SETTLE_LINEAR_SPEED * SETTLE_LINEAR_SPEED
    &&& TICKS_PER_SECOND * (if angvel < 0 { -angvel } else { angvel as int }) < SETTLE_ANGULAR_SPEED
}

/// The next state and the action a state and an event lead to.
pub open spec fn next_state(s: LifecycleState, e: BlockEvent) -> (LifecycleState, BlockAction) {
    match (s, e) {
        (LifecycleState::Destroyed, _) => (LifecycleState::Destroyed, BlockAction::Nothing),
        (_, BlockEvent::BelowFloor) => (LifecycleState::Destroyed, BlockAction::Despawn),
        (LifecycleState::Aiming, BlockEvent::Launch) => (LifecycleState::Falling, BlockAction::Throw),
        (LifecycleState::Falling, BlockEvent::Moved { linvel, angvel }) => if is_still(linvel, angvel) {
            (LifecycleState::Settled, BlockAction::Settle)
        } else {
            (LifecycleState::Falling, BlockAction::Nothing)
        },
        (LifecycleState::Falling, BlockEvent::DestroyingContact) => (
            LifecycleState::Destroyed,
            BlockAction::Shatter,
        ),
        (LifecycleState::Settled, BlockEvent::DestroyingContact) => (
            LifecycleState::Destroyed,
            BlockAction::Shatter,
        ),
        _ => (s, BlockAction::Nothing),
    }
}

/// Whether a velocity is below both settling thresholds.
pub fn velocity_is_still(linvel: Point, angvel: i64) -> (r: bool)
    ensures
        r == is_still(linvel, angvel),
{
    let limit: i64 = 0x10_0000;
    if linvel.x <= -limit || linvel.x >= limit || linvel.y <= -limit || linvel.y >= limit
        || angvel <= -limit || angvel >= limit {
        assert(!is_still(linvel, angvel)) by (nonlinear_arith)
            requires
                linvel.x <= -0x10_0000 || linvel.x >= 0x10_0000 || linvel.y <= -0x10_0000 || linvel.y
                    >= 0x10_0000 || angvel <= -0x10_0000 || angvel >= 0x10_0000,
        ;
        return false;
    }
    let x = linvel.x;
    let y = linvel.y;
    assert(0 <= x * x <= 0x100_0000_0000) by (nonlinear_arith)
        requires
            -0x10_0000 < x < 0x10_0000,
    ;
    assert(0 <= y * y <= 0x100_0000_0000) by (nonlinear_arith)
        requires
            -0x10_0000 < y < 0x10_0000,
    ;
    let w = if angvel < 0 {
        -angvel
    } else {
        angvel
    };
    TICKS_PER_SECOND * TICKS_PER_SECOND * (x * x + y * y) < SETTLE_LINEAR_SPEED * SETTLE_LINEAR_SPEED
        && TICKS_PER_SECOND * w < SETTLE_ANGULAR_SPEED
}

/// The transition of one block's state on one event.
pub fn transition(state: LifecycleState, event: BlockEvent) -> (r: (LifecycleState, BlockAction))
    ensures
        r == next_state(state, event),
{
    match (state, event) {
        (LifecycleState::Destroyed, _) => (LifecycleState::Destroyed, BlockAction::Nothing),
        (_, BlockEvent::BelowFloor) => (LifecycleState::Destroyed, BlockAction::Despawn),
        (LifecycleState::Aiming, BlockEvent::Launch) => (LifecycleState::Falling, BlockAction::Throw),
        (LifecycleState::Falling, BlockEvent::Moved { linvel, angvel }) => {
            if velocity_is_still(linvel, angvel) {
                (LifecycleState::Settled, BlockAction::Settle)
            } else {
                (LifecycleState::Falling, BlockAction::Nothing)
            }
        },
        (LifecycleState::Falling, BlockEvent::DestroyingContact) => (
            LifecycleState::Destroyed,
            BlockAction::Shatter,
        ),
        (LifecycleState::Settled, BlockEvent::DestroyingContact) => (
            LifecycleState::Destroyed,
            BlockAction::Shatter,
        ),
        _ => (state, BlockAction::Nothing),
    }
}

/// No event takes a settled block back to falling, nothing leaves the destroyed state, a
/// block falls only after aiming or falling and starts to only on launch, and it settles only
/// from falling, on a tick that ends below both speed thresholds.
pub proof fn lemma_lifecycle_monotone(s: LifecycleState, e: BlockEvent)
    ensures
        s == LifecycleState::Aiming && next_state(s, e).0 == LifecycleState::Falling ==> e
            == BlockEvent::Launch,
        next_state(s, e).0 == LifecycleState::Settled && s != LifecycleState::Settled ==> s
            == LifecycleState::Falling && (e matches BlockEvent::Moved { linvel, angvel } && is_still(
            linvel,
            angvel,
        )),
        s == LifecycleState::Settled ==> next_state(s, e).0 != LifecycleState::Falling,
        s == LifecycleState::Destroyed ==> next_state(s, e).0 == LifecycleState::Destroyed,
        next_state(s, e).0 == LifecycleState::Aiming ==> s == LifecycleState::Aiming,
        next_state(s, e).0 == LifecycleState::Falling ==> s == LifecycleState::Aiming || s
            == LifecycleState::Falling,
{
}


/// A block of the world and the state it is in.
#[derive(Clone, Copy, Debug, PartialEq, Eq, Structural)]
pub struct BlockEntry {
    pub block: Block,
    pub state: LifecycleState,
}

/// Every block launched or being aimed in a level, by index, with the one being aimed noted.
#[derive(Debug)]
pub struct Tower {
    pub entries: Vec<BlockEntry>,
    pub aiming: Option<usize>,
}

/// At most one block is aiming, and `aiming` names it.
pub open spec fn tower_ok(t: &Tower) -> bool {
    &&& t.aiming matches Some(i) ==> i < t.entries@.len() && t.entries@[i as int].state
        == LifecycleState::Aiming
    &&& forall|j: int|
        0 <= j < t.entries@.len() && (#[trigger] t.entries@[j]).state == LifecycleState::Aiming
            ==> (t.aiming matches Some(a) && a as int == j)
}

/// No two blocks of the tower are aiming.
pub proof fn lemma_single_aiming(t: &Tower, i: int, j: int)
    requires
        tower_ok(t),
        0 <= i < t.entries@.len(),
        0 <= j < t.entries@.len(),
        t.entries@[i].state == LifecycleState::Aiming,
        t.entries@[j].state == LifecycleState::Aiming,
    ensures
        i == j,
{
    assert(t.entries@[i].state == LifecycleState::Aiming);
    assert(t.entries@[j].state == LifecycleState::Aiming);
}

impl Tower {
    /// A level's tower before any block is spawned.
    pub fn new() -> (r: Tower)
        ensures
            tower_ok(&r),
            r.entries@.len() == 0,
            r.aiming is None,
    {
        Tower { entries: Vec::new(), aiming: None }
    }

    /// Spawns `block` as the aiming block, unless one is aiming already; returns its index.
    pub fn spawn_aiming(&mut self, block: Block) -> (r: Option<usize>)
        requires
            tower_ok(old(self)),
        ensures
            tower_ok(final(self)),
            old(self).aiming is Some ==> r is None && *final(self) == *old(self),
            old(self).aiming is None ==> r == Some(old(self).entries@.len() as usize)
                && final(self).entries@ == old(self).entries@.push(
                BlockEntry { block, state: LifecycleState::Aiming },
            ) && final(self).aiming == r,
    {
        if self.aiming.is_some() {
            return None;
        }
        let i = self.entries.len();
        self.entries.push(BlockEntry { block, state: LifecycleState::Aiming });
        self.aiming = Some(i);
        Some(i)
    }

    /// Feeds one event to the block at `index` and returns what the caller has to do.
    pub fn apply(&mut self, index: usize, event: BlockEvent) -> (r: BlockAction)
        requires
            tower_ok(old(self)),
            index < old(self).entries@.len(),
        ensures
            tower_ok(final(self)),
            ({
                let (s, a) = next_state(old(self).entries@[index as int].state, event);
                &&& r == a
                &&& final(self).entries@ == old(self).entries@.update(
                    index as int,
                    BlockEntry { state: s, ..old(self).entries@[index as int] },
                )
            }),
            final(self).aiming == (if old(self).aiming == Some(index) && next_state(
                old(self).entries@[index as int].state,
                event,
            ).0 != LifecycleState::Aiming {
                None
            } else {
                old(self).aiming
            }),
    {
        let entry = self.entries[index];
        let (s, a) = transition(entry.state, event);
        self.entries.set(index, BlockEntry { state: s, ..entry });
        if self.aiming == Some(index) && s != LifecycleState::Aiming {
            self.aiming = None;
        }
        proof {
            lemma_lifecycle_monotone(entry.state, event);
            assert forall|j: int|
                0 <= j < self.entries@.len() && (#[trigger] self.entries@[j]).state
                    == LifecycleState::Aiming implies (self.aiming matches Some(a) && a as int == j) by {
                if j != index {
                    assert(old(self).entries@[j] == self.entries@[j]);
                } else {
                    assert(entry.state == LifecycleState::Aiming);
                }
            }
        }
        a
    }
}

/// Takes the next block of the queue into the aiming state when no block is aiming.
pub fn create_aiming_block(tower: &mut Tower, throw_queue: &mut ThrowQueue) -> (r: Option<usize>)
    requires
        tower_ok(old(tower)),
    ensures
        tower_ok(final(tower)),
        final(throw_queue).target_length == old(throw_queue).target_length,
        (old(tower).aiming is Some || old(throw_queue).queue@.len() == 0) ==> r is None && *final(tower)
            == *old(tower) && final(throw_queue).queue@ == old(throw_queue).queue@,
        (old(tower).aiming is None && old(throw_queue).queue@.len() > 0) ==> {
            &&& r == Some(old(tower).entries@.len() as usize)
            &&& final(throw_queue).queue@ == old(throw_queue).queue@.drop_last()
            &&& final(tower).entries@ == old(tower).entries@.push(
                BlockEntry { block: old(throw_queue).queue@.last(), state: LifecycleState::Aiming },
            )
            &&& final(tower).aiming == r
        },
{
    if tower.aiming.is_some() {
        return None;
    }
    match throw_queue.queue.pop() {
        None => None,
        Some(block) => tower.spawn_aiming(block),
    }
}


/// A collision between a block in state `falling` and a body in state `catcher` (`None` for a
/// body that is not a block) counts as the falling block being caught: the first is falling
/// and the second is neither falling nor being aimed.
pub open spec fn is_catch(falling: LifecycleState, catcher: Option<LifecycleState>) -> bool {
    falling == LifecycleState::Falling && !(catcher matches Some(s) && (s == LifecycleState::Falling
        || s == LifecycleState::Aiming))
}

/// Whether a collision between a block in state `falling` and a body in state `catcher` is a
/// catch of the falling block.
pub fn catches(falling: LifecycleState, catcher: Option<LifecycleState>) -> (r: bool)
    ensures
        r == is_catch(falling, catcher),
{
    if falling != LifecycleState::Falling {
        return false;
    }
    match catcher {
        Some(s) => s != LifecycleState::Falling && s != LifecycleState::Aiming,
        None => true,
    }
}


/// What a launch hands the physics backend: the block thrown, the velocity it leaves with, and
/// the ticks it stays hidden until it clears the barrel.
#[derive(Clone, Copy, Debug, PartialEq, Eq, Structural)]
pub struct Launch {
    pub index: usize,
    pub velocity: Velocity,
    pub hidden_for: u32,
}

/// Launches the aiming block, if there is one: it starts falling with the aim's velocity, stays
/// hidden for the barrel-exit time of the latest forecast, and the aim's spin is reset.
pub fn throw_block(tower: &mut Tower, aim: &mut Aim) -> (r: Option<Launch>)
    requires
        tower_ok(old(tower)),
        aim_ok(*old(aim)),
    ensures
        tower_ok(final(tower)),
        aim_ok(*final(aim)),
        old(tower).aiming is None ==> r is None && *final(tower) == *old(tower) && *final(aim)
            == *old(aim),
        old(tower).aiming matches Some(i) ==> {
            &&& r matches Some(l) && l.index == i && l.hidden_for == old(aim).exits_barrel_after && (
            l.velocity.linvel.x as int,
            l.velocity.linvel.y as int,
            l.velocity.angvel as int,
        ) == aim_velocity(*old(aim))
            &&& final(tower).entries@ == old(tower).entries@.update(
                i as int,
                BlockEntry { state: LifecycleState::Falling, ..old(tower).entries@[i as int] },
            )
            &&& final(tower).aiming is None
            &&& *final(aim) == (Aim { rotation: 0, ..*old(aim) })
        },
{
    match tower.aiming {
        None => None,
        Some(i) => {
            let velocity = aim.velocity();
            tower.apply(i, BlockEvent::Launch);
            aim.rotation = 0;
            Some(Launch { index: i, velocity, hidden_for: aim.exits_barrel_after })
        },
    }
}

} // verus!
