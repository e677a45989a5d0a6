use tower_core::block::Block;
use tower_core::geometry::Point;
use tower_core::lifecycle::{
    catches, create_aiming_block, transition, velocity_is_still, BlockAction, BlockEvent, LifecycleState,
    Tower,
};
use tower_core::shape::BlockType;
use tower_core::throw::ThrowQueue;

const STATES: [LifecycleState; 4] =
    [LifecycleState::Aiming, LifecycleState::Falling, LifecycleState::Settled, LifecycleState::Destroyed];

fn events() -> Vec<BlockEvent> {
    vec![
        BlockEvent::Launch,
        BlockEvent::Moved { linvel: Point::new(0, 0), angvel: 0 },
        BlockEvent::Moved { linvel: Point::new(50_000, 0), angvel: 0 },
        BlockEvent::DestroyingContact,
        BlockEvent::BelowFloor,
    ]
}

fn block() -> Block {
    Block::new(BlockType::T, 1, None, 0)
}

#[test]
fn launch_turns_aiming_into_falling() {
    assert_eq!(transition(LifecycleState::Aiming, BlockEvent::Launch), (LifecycleState::Falling, BlockAction::Throw));
}

#[test]
fn still_falling_block_settles() {
    let e = BlockEvent::Moved { linvel: Point::new(1_000, -500), angvel: 100 };
    assert_eq!(transition(LifecycleState::Falling, e), (LifecycleState::Settled, BlockAction::Settle));
    let fast = BlockEvent::Moved { linvel: Point::new(2_000, 0), angvel: 0 };
    assert_eq!(transition(LifecycleState::Falling, fast), (LifecycleState::Falling, BlockAction::Nothing));
}

#[test]
fn settling_thresholds() {
    // 0.1 cells per second is 1666.67 micro-cells per tick
    assert!(velocity_is_still(Point::new(1_666, 0), 0));
    assert!(!velocity_is_still(Point::new(1_667, 0), 0));
    assert!(velocity_is_still(Point::new(0, 0), 1_666));
    assert!(!velocity_is_still(Point::new(0, 0), -1_667));
    assert!(!velocity_is_still(Point::new(i64::MIN, 0), 0));
}

#[test]
fn destroying_contact_shatters() {
    for s in [LifecycleState::Falling, LifecycleState::Settled] {
        assert_eq!(transition(s, BlockEvent::DestroyingContact), (LifecycleState::Destroyed, BlockAction::Shatter));
    }
    assert_eq!(
        transition(LifecycleState::Aiming, BlockEvent::DestroyingContact),
        (LifecycleState::Aiming, BlockAction::Nothing)
    );
}

#[test]
fn below_floor_despawns_silently() {
    for s in [LifecycleState::Aiming, LifecycleState::Falling, LifecycleState::Settled] {
        assert_eq!(transition(s, BlockEvent::BelowFloor), (LifecycleState::Destroyed, BlockAction::Despawn));
    }
}

#[test]
fn lifecycle_never_goes_back() {
    for s in STATES {
        for e in events() {
            let (n, _) = transition(s, e);
            if s == LifecycleState::Settled {
                assert_ne!(n, LifecycleState::Falling);
            }
            if s == LifecycleState::Destroyed {
                assert_eq!(n, LifecycleState::Destroyed);
            }
            if n == LifecycleState::Aiming {
                assert_eq!(s, LifecycleState::Aiming);
            }
        }
    }
}

#[test]
fn only_one_block_aims_at_a_time() {
    let mut tower = Tower::new();
    assert_eq!(tower.spawn_aiming(block()), Some(0));
    assert_eq!(tower.spawn_aiming(block()), None);
    assert_eq!(tower.entries.len(), 1);
    assert_eq!(tower.apply(0, BlockEvent::Launch), BlockAction::Throw);
    assert_eq!(tower.aiming, None);
    assert_eq!(tower.spawn_aiming(block()), Some(1));
    let aiming = tower.entries.iter().filter(|e| e.state == LifecycleState::Aiming).count();
    assert_eq!(aiming, 1);
}

#[test]
fn aiming_block_comes_from_the_queue() {
    let mut tower = Tower::new();
    let mut queue = ThrowQueue::new();
    assert_eq!(create_aiming_block(&mut tower, &mut queue), None);
    queue.queue.push(Block::new(BlockType::I, 2, None, 1));
    queue.queue.push(Block::new(BlockType::O, 3, None, 2));
    assert_eq!(create_aiming_block(&mut tower, &mut queue), Some(0));
    assert_eq!(tower.entries[0].block.block_type, BlockType::O);
    assert_eq!(queue.queue.len(), 1);
    assert_eq!(create_aiming_block(&mut tower, &mut queue), None);
    assert_eq!(queue.queue.len(), 1);
}

#[test]
fn caught_only_by_resting_bodies() {
    assert!(catches(LifecycleState::Falling, None));
    assert!(catches(LifecycleState::Falling, Some(LifecycleState::Settled)));
    assert!(!catches(LifecycleState::Falling, Some(LifecycleState::Falling)));
    assert!(!catches(LifecycleState::Falling, Some(LifecycleState::Aiming)));
    assert!(!catches(LifecycleState::Settled, None));
}

use tower_core::lifecycle::throw_block;
use tower_core::throw::Aim;

#[test]
fn throw_launches_the_aiming_block() {
    let mut tower = Tower::new();
    let mut aim = Aim::new();
    assert_eq!(throw_block(&mut tower, &mut aim), None);
    tower.spawn_aiming(block());
    aim.direction = Point::new(0, 1_000_000);
    aim.force = 500;
    aim.rotation = 9;
    aim.exits_barrel_after = 6;
    let l = throw_block(&mut tower, &mut aim).expect("a block was aiming");
    assert_eq!(l.index, 0);
    assert_eq!(l.velocity.linvel, Point::new(0, 500));
    assert_eq!(l.velocity.angvel, 9);
    assert_eq!(l.hidden_for, 6);
    assert_eq!(aim.rotation, 0);
    assert_eq!(tower.entries[0].state, LifecycleState::Falling);
    assert_eq!(tower.aiming, None);
    assert_eq!(throw_block(&mut tower, &mut aim), None);
}

use tower_core::block::EffectType;

#[test]
fn platform_blocks_are_pinned_when_settled() {
    assert!(EffectType::Platform.fixes_on_settle());
    assert!(!EffectType::Glue.fixes_on_settle());
    assert!(!EffectType::Magnetic.fixes_on_settle());
}
