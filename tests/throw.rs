use tower_core::block::EffectType;
use tower_core::throw::{fill_throw_queue, setup_throw_queue, throw_queue_item, Level, ThrowQueue};

fn level(max_blocks: Option<usize>, effects: Vec<(EffectType, u32)>, likelihood: u32) -> Level {
    Level { max_blocks, enabled_effects: effects, effect_likelihood: likelihood }
}

#[test]
fn budgeted_level_gets_all_blocks_at_once() {
    let l = level(Some(5), vec![], 0);
    let mut q = ThrowQueue::new();
    setup_throw_queue(&mut q, &l);
    assert_eq!(q.queue.len(), 5);
    assert_eq!(q.target_length, 0);
    fill_throw_queue(&mut q, &l);
    assert_eq!(q.queue.len(), 5);
}

#[test]
fn open_level_refills_to_three() {
    let l = level(None, vec![], 0);
    let mut q = ThrowQueue::new();
    setup_throw_queue(&mut q, &l);
    assert_eq!(q.queue.len(), 0);
    assert_eq!(q.target_length, 3);
    fill_throw_queue(&mut q, &l);
    assert_eq!(q.queue.len(), 3);
    let kept = q.queue[..2].to_vec();
    q.queue.pop();
    fill_throw_queue(&mut q, &l);
    assert_eq!(q.queue.len(), 3);
    assert_eq!(q.queue[..2].to_vec(), kept);
}

#[test]
fn items_are_well_formed() {
    let l = level(None, vec![(EffectType::Glue, 1), (EffectType::Magnetic, 0)], 1000);
    for _ in 0..100 {
        let b = throw_queue_item(&l);
        assert!((1..=5).contains(&b.variant));
        assert!(b.initial_rotation < 4);
        assert_eq!(b.effect_type, Some(EffectType::Glue));
    }
}

#[test]
fn no_effect_without_likelihood_or_weight() {
    let none = level(None, vec![(EffectType::Glue, 3)], 0);
    let zero = level(None, vec![(EffectType::Glue, 0)], 1000);
    let empty = level(None, vec![], 1000);
    for _ in 0..50 {
        assert_eq!(throw_queue_item(&none).effect_type, None);
        assert_eq!(throw_queue_item(&zero).effect_type, None);
        assert_eq!(throw_queue_item(&empty).effect_type, None);
    }
}
