use rand::seq::SliceRandom;
use rand::Rng;
use vstd::prelude::*;

use crate::block::EffectType;

verus! {

/// Relies on rand's `Rng::gen_range` over `0..n` on the thread generator: a value below `n`
/// (the range is not empty, so it does not panic).
#[verifier::external_body]
pub(crate) fn random_below(n: u32) -> (r: u32)
    requires
        n > 0,
    ensures
        r < n,
{
    rand::thread_rng().gen_range(0..n)
}


/// Sum of the weights of a list of weighted effects.
pub open spec fn total_weight(options: Seq<(EffectType, u32)>) -> int
    decreases options.len(),
{
    if options.len() == 0 {
        0
    } else {
        total_weight(options.drop_last()) + options.last().1
    }
}

/// Relies on rand's `SliceRandom::choose_weighted` on the thread generator (weights widened
/// to `u64`, whose sum cannot overflow for fewer than 2³² items): it fails exactly when the
/// list is empty or every weight is zero, and otherwise hands back one of the items.
#[verifier::external_body]
pub(crate) fn choose_weighted_effect(options: &Vec<(EffectType, u32)>) -> (r: Option<EffectType>)
    requires
        options@.len() <= u32::MAX,
    ensures
        r is None <==> total_weight(options@) == 0,
        r matches Some(e) ==> exists|i: int| 0 <= i < options@.len() && (#[trigger] options@[i]).0 == e,
{
    options.choose_weighted(&mut rand::thread_rng(), |item| item.1 as u64).ok().map(|item| item.0)
}


/// A sum of weights is never negative.
pub proof fn lemma_total_weight_nonneg(options: Seq<(EffectType, u32)>)
    ensures
        total_weight(options) >= 0,
    decreases options.len(),
{
    if options.len() > 0 {
        lemma_total_weight_nonneg(options.drop_last());
    }
}

} // verus!
