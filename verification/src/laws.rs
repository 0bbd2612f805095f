use vstd::prelude::*;

use crate::contract::{book_wf, tables_of, PrediqsContract};
use crate::errors::Error;
use crate::market::{MarketStatus, OpContext};
use crate::sums::{stakes_across, sum_amounts, total_staked};

verus! {

/// In every well-formed state, the sum of a market's per-outcome aggregates
/// equals the market's total pool.
pub proof fn lemma_pool_equals_outcome_aggregates(c: &PrediqsContract, market_id: u64)
    requires
        c.wf(),
        c.has_market(market_id),
    ensures
        sum_amounts(c.book_at(market_id).outcome_totals@) == c.market_at(
            market_id,
        ).total_egld_pool,
{
    assert(book_wf(c.books@[market_id - 1], c.markets@[market_id - 1]));
}

/// In every well-formed state, the sum of the per-participant totals of a
/// market equals the market's total pool.
pub proof fn lemma_pool_equals_user_totals(c: &PrediqsContract, market_id: u64)
    requires
        c.wf(),
        c.has_market(market_id),
    ensures
        total_staked(c.book_at(market_id).user_totals@) == c.market_at(market_id).total_egld_pool,
{
    assert(book_wf(c.books@[market_id - 1], c.markets@[market_id - 1]));
}

/// In every well-formed state, a participant's per-market total — the
/// amount a refund pays back — equals the sum of their bet records across
/// all outcomes of the market.
pub proof fn lemma_user_total_is_sum_of_bet_records(
    c: &PrediqsContract,
    market_id: u64,
    participant: u64,
)
    requires
        c.wf(),
        c.has_market(market_id),
    ensures
        c.user_total_of(market_id, participant) == stakes_across(
            tables_of(c.book_at(market_id).bets@),
            participant,
        ),
{
    assert(book_wf(c.books@[market_id - 1], c.markets@[market_id - 1]));
}

/// The refunds still claimable from a market: for each recorded
/// participant, their full per-market total unless they already claimed.
pub open spec fn claimable_refunds(entries: Seq<(u64, u64)>, claimed: Seq<u64>) -> int
    decreases entries.len(),
{
    if entries.len() == 0 {
        0
    } else {
        (if claimed.contains(entries[0].0) {
            0
        } else {
            entries[0].1 as int
        }) + claimable_refunds(entries.skip(1), claimed)
    }
}

proof fn lemma_claimable_refunds_none_claimed(entries: Seq<(u64, u64)>, claimed: Seq<u64>)
    requires
        claimed.len() == 0,
    ensures
        claimable_refunds(entries, claimed) == total_staked(entries),
    decreases entries.len(),
{
    if entries.len() > 0 {
        lemma_claimable_refunds_none_claimed(entries.skip(1), claimed);
    }
}

/// On a canceled market from which nobody has yet claimed, the sum of
/// refunds claimable across all participants equals the market's total pool
/// exactly: no fee is deducted on refunds.
pub proof fn lemma_refunds_cover_pool(c: &PrediqsContract, market_id: u64)
    requires
        c.wf(),
        c.has_market(market_id),
        c.market_at(market_id).status == MarketStatus::Canceled,
        c.book_at(market_id).refund_claimed@.len() == 0,
    ensures
        claimable_refunds(
            c.book_at(market_id).user_totals@,
            c.book_at(market_id).refund_claimed@,
        ) == c.market_at(market_id).total_egld_pool,
{
    assert(book_wf(c.books@[market_id - 1], c.markets@[market_id - 1]));
    lemma_claimable_refunds_none_claimed(
        c.book_at(market_id).user_totals@,
        c.book_at(market_id).refund_claimed@,
    );
}

/// Claims are one-shot: once a participant's winnings claim is recorded,
/// any further winnings claim by that participant on that market is
/// rejected as a duplicate (and, by the contract of `claim_winnings`,
/// leaves the state unchanged).
pub proof fn lemma_winnings_claim_is_one_shot(
    c: &PrediqsContract,
    market_id: u64,
    participant: u64,
)
    requires
        c.has_market(market_id),
        c.winnings_claimed_by(market_id, participant),
    ensures
        c.claim_winnings_error(market_id, participant) == Some(Error::AlreadyClaimed),
{
}

/// Refund claims are one-shot in the same way.
pub proof fn lemma_refund_claim_is_one_shot(c: &PrediqsContract, market_id: u64, participant: u64)
    requires
        c.has_market(market_id),
        c.refund_claimed_by(market_id, participant),
    ensures
        c.claim_refund_error(market_id, participant) == Some(Error::AlreadyClaimed),
{
}

/// The betting deadline is strict: a bet whose operation time has reached
/// the deadline is rejected, and a bet strictly before the deadline (on a
/// valid outcome, with a positive payment, on an open market) is accepted.
pub proof fn lemma_bet_deadline_boundary(
    c: &PrediqsContract,
    ctx: OpContext,
    market_id: u64,
    outcome_index: usize,
    payment: u64,
)
    requires
        c.wf(),
        c.has_market(market_id),
        c.market_at(market_id).status == MarketStatus::Open,
        payment > 0,
        outcome_index < c.market_at(market_id).outcomes@.len(),
    ensures
        ctx.current_time >= c.market_at(market_id).betting_deadline ==> c.place_bet_error(
            ctx,
            market_id,
            outcome_index,
            payment,
        ) == Some(Error::DeadlinePassed),
        ctx.current_time < c.market_at(market_id).betting_deadline ==> c.place_bet_error(
            ctx,
            market_id,
            outcome_index,
            payment,
        ) is None,
{
}

/// The winning-outcome index is checked strictly against the outcome count:
/// resolving to the outcome count itself is rejected, while the last valid
/// index is accepted (by the administrator, on an open market).
pub proof fn lemma_resolve_index_boundary(c: &PrediqsContract, ctx: OpContext, market_id: u64)
    requires
        c.wf(),
        c.has_market(market_id),
        c.market_at(market_id).status == MarketStatus::Open,
        ctx.caller_is_admin,
        c.market_at(market_id).outcomes@.len() <= usize::MAX,
    ensures
        c.resolve_market_error(
            ctx,
            market_id,
            c.market_at(market_id).outcomes@.len() as usize,
        ) == Some(Error::InvalidArgument),
        c.resolve_market_error(
            ctx,
            market_id,
            (c.market_at(market_id).outcomes@.len() - 1) as usize,
        ) is None,
{
}

} // verus!
