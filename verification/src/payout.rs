use vstd::arithmetic::div_mod::{lemma_div_is_ordered, lemma_div_multiples_vanish};
use vstd::arithmetic::mul::lemma_mul_inequality;
use vstd::prelude::*;

verus! {

/// The platform fee levied on a claim: two percent of the pool, with the
/// integer division truncating toward zero.
pub open spec fn spec_fee(pool: int) -> int {
    pool * 2 / 100
}

/// The pool that remains for the winners once the fee is taken.
pub open spec fn spec_distributable(pool: int) -> int {
    pool - spec_fee(pool)
}

/// A winner's proportional share: their stake on the winning outcome times
/// the distributable pool, divided by the winning outcome's aggregate, with
/// the integer division truncating toward zero.
pub open spec fn spec_payout(stake: int, pool: int, aggregate: int) -> int
    recommends
        aggregate > 0,
{
    stake * spec_distributable(pool) / aggregate
}

/// What a successful winnings claim transfers: the fee goes to the
/// administrator and the payout to the claimant; the distributable pool is
/// the intermediate quantity both are computed from.
#[derive(Clone, Copy, PartialEq, Eq, Structural, Debug)]
pub struct WinningsPayout {
    pub fee: u64,
    pub distributable: u64,
    pub payout: u64,
}

/// The fee never exceeds the pool, so the distributable pool is never
/// negative.
pub proof fn lemma_fee_bounds(pool: int)
    requires
        pool >= 0,
    ensures
        0 <= spec_fee(pool) <= pool,
        0 <= spec_distributable(pool) <= pool,
{
    lemma_div_is_ordered(0, pool * 2, 100);
    lemma_div_is_ordered(pool * 2, 100 * pool, 100);
    lemma_div_multiples_vanish(pool, 100);
}

/// A winner's payout never exceeds the distributable pool.
pub proof fn lemma_payout_bounds(stake: int, pool: int, aggregate: int)
    requires
        0 <= stake <= aggregate,
        0 <= pool,
        0 < aggregate,
    ensures
        0 <= spec_payout(stake, pool, aggregate) <= spec_distributable(pool),
{
    lemma_fee_bounds(pool);
    let d = spec_distributable(pool);
    lemma_mul_inequality(stake, aggregate, d);
    lemma_div_is_ordered(0, stake * d, aggregate);
    lemma_div_is_ordered(stake * d, aggregate * d, aggregate);
    lemma_div_multiples_vanish(d, aggregate);
}

} // verus!
