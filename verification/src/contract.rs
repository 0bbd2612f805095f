use vstd::prelude::*;

use crate::errors::Error;
use crate::market::{Category, Market, MarketCreatedEventData, MarketStatus, OpContext};
use crate::payout::{
    lemma_fee_bounds, lemma_payout_bounds, spec_distributable, spec_fee, spec_payout,
    WinningsPayout,
};
use crate::stake_table::StakeTable;
use crate::sums::{
    lemma_stake_le_total, lemma_stakes_across_empty, lemma_stakes_across_update,
    lemma_sum_amounts_element, lemma_sum_amounts_push, lemma_sum_amounts_update, stake_of,
    stakes_across, sum_amounts, total_staked,
};
use vstd::arithmetic::mul::lemma_mul_upper_bound;

verus! {

/// The per-market betting ledger: one aggregate per outcome, one stake table
/// per outcome, the per-participant totals across all outcomes, and the two
/// one-shot claim flags.
pub struct MarketBook {
    /// Sum of all stakes per outcome, indexed like the market's outcomes.
    pub outcome_totals: Vec<u64>,
    /// Per-outcome cumulative stakes, keyed by participant.
    pub bets: Vec<StakeTable>,
    /// Per-participant total staked across all outcomes of the market.
    pub user_totals: StakeTable,
    /// Participants who already claimed winnings for this market.
    pub winnings_claimed: Vec<u64>,
    /// Participants who already claimed a refund for this market.
    pub refund_claimed: Vec<u64>,
}

/// The settlement core: the category registry, the market registry, and one
/// betting ledger per market.
///
/// The hosting ledger delivers one operation at a time and supplies each
/// with an [`OpContext`]; every method either completes its whole effect or
/// returns an [`Error`] and leaves the state untouched.
pub struct PrediqsContract {
    pub categories: Vec<Category>,
    pub markets: Vec<Market>,
    pub books: Vec<MarketBook>,
}

/// Well-formedness of a stored market record: ids are 1-based and
/// sequential, there are at least two outcomes, the betting deadline lies
/// strictly after creation, and the winning index exists exactly when the
/// market is resolved and is then in range.
pub open spec fn market_wf(m: Market, i: int) -> bool {
    &&& m.id == i + 1
    &&& m.outcomes@.len() >= 2
    &&& m.betting_deadline > m.creation_timestamp
    &&& (m.status == MarketStatus::Resolved <==> m.winning_outcome_index is Some)
    &&& (m.winning_outcome_index matches Some(w) ==> w < m.outcomes@.len())
}

/// The entry sequences of a sequence of stake tables.
pub open spec fn tables_of(bets: Seq<StakeTable>) -> Seq<Seq<(u64, u64)>> {
    bets.map_values(|t: StakeTable| t@)
}

/// Well-formedness of a market's ledger against its record. In particular:
/// the sum of all outcome aggregates equals the market's total pool, the sum
/// of all per-participant totals equals the total pool, each outcome's
/// aggregate equals the sum of the stakes recorded on that outcome, and each
/// participant's per-market total equals the sum of their bet records across
/// all outcomes.
pub open spec fn book_wf(b: MarketBook, m: Market) -> bool {
    &&& b.outcome_totals@.len() == m.outcomes@.len()
    &&& b.bets@.len() == m.outcomes@.len()
    &&& sum_amounts(b.outcome_totals@) == m.total_egld_pool
    &&& total_staked(b.user_totals@) == m.total_egld_pool
    &&& b.user_totals.wf()
    &&& forall|o: int|
        0 <= o < b.bets@.len() ==> total_staked((#[trigger] b.bets@[o])@) == b.outcome_totals@[o]
    &&& forall|o: int| 0 <= o < b.bets@.len() ==> (#[trigger] b.bets@[o]).wf()
    &&& forall|q: u64|
        #[trigger] stake_of(b.user_totals@, q) == stakes_across(tables_of(b.bets@), q)
    &&& (m.status != MarketStatus::Canceled ==> b.refund_claimed@.len() == 0)
    &&& (m.status != MarketStatus::Resolved ==> b.winnings_claimed@.len() == 0)
}

impl PrediqsContract {
    /// The global state invariant: every constructor establishes it and
    /// every operation preserves it.
    pub open spec fn wf(&self) -> bool {
        &&& self.books@.len() == self.markets@.len()
        &&& forall|i: int|
            0 <= i < self.markets@.len() ==> market_wf(#[trigger] self.markets@[i], i)
        &&& forall|i: int|
            0 <= i < self.markets@.len() ==> book_wf(#[trigger] self.books@[i], self.markets@[i])
        &&& forall|i: int|
            0 <= i < self.categories@.len() ==> (#[trigger] self.categories@[i]).id == i + 1
    }

    /// Whether `market_id` references a stored market.
    pub open spec fn has_market(&self, market_id: u64) -> bool {
        1 <= market_id && market_id <= self.markets@.len()
    }

    pub open spec fn market_at(&self, market_id: u64) -> Market
        recommends
            self.has_market(market_id),
    {
        self.markets@[market_id - 1]
    }

    pub open spec fn book_at(&self, market_id: u64) -> MarketBook
        recommends
            self.has_market(market_id),
    {
        self.books@[market_id - 1]
    }

    /// Whether `category_id` references a stored category.
    pub open spec fn has_category(&self, category_id: u64) -> bool {
        1 <= category_id && category_id <= self.categories@.len()
    }

    pub open spec fn category_at(&self, category_id: u64) -> Category
        recommends
            self.has_category(category_id),
    {
        self.categories@[category_id - 1]
    }

    /// The participant's cumulative stake on one outcome of one market.
    pub open spec fn bet_of(&self, market_id: u64, outcome_index: int, participant: u64) -> u64 {
        stake_of(self.book_at(market_id).bets@[outcome_index]@, participant)
    }

    /// The participant's total staked across all outcomes of one market.
    pub open spec fn user_total_of(&self, market_id: u64, participant: u64) -> u64 {
        stake_of(self.book_at(market_id).user_totals@, participant)
    }

    /// The aggregate staked on one outcome of one market.
    pub open spec fn outcome_total_of(&self, market_id: u64, outcome_index: int) -> u64 {
        self.book_at(market_id).outcome_totals@[outcome_index]
    }

    /// Whether the participant already claimed winnings for the market.
    pub open spec fn winnings_claimed_by(&self, market_id: u64, participant: u64) -> bool {
        self.book_at(market_id).winnings_claimed@.contains(participant)
    }

    /// Whether the participant already claimed a refund for the market.
    pub open spec fn refund_claimed_by(&self, market_id: u64, participant: u64) -> bool {
        self.book_at(market_id).refund_claimed@.contains(participant)
    }

    /// Fresh contract state: no categories, no markets, no ledgers.
    pub fn init() -> (r: Self)
        ensures
            r.wf(),
            r.categories@.len() == 0,
            r.markets@.len() == 0,
            r.books@.len() == 0,
    {
        PrediqsContract { categories: Vec::new(), markets: Vec::new(), books: Vec::new() }
    }

    /// An upgrade of the hosting contract carries the stored state over
    /// unchanged.
    pub fn upgrade(&mut self)
        ensures
            *final(self) == *old(self),
    {
    }

    /// Registers a new category, active by default, and returns its id.
    pub fn add_category(&mut self, ctx: OpContext, name: String) -> (r: Result<u64, Error>)
        requires
            old(self).wf(),
            old(self).categories@.len() < u64::MAX,
        ensures
            final(self).wf(),
            !ctx.caller_is_admin ==> r == Err::<u64, Error>(Error::Authorization) && *final(self)
                == *old(self),
            ctx.caller_is_admin ==> {
                &&& r == Ok::<u64, Error>((old(self).categories@.len() + 1) as u64)
                &&& final(self).categories@ == old(self).categories@.push(
                    (Category {
                        id: (old(self).categories@.len() + 1) as u64,
                        name: name,
                        active: true,
                    }),
                )
                &&& final(self).markets == old(self).markets
                &&& final(self).books == old(self).books
            },
    {
        if !ctx.caller_is_admin {
            return Err(Error::Authorization);
        }
        let category_id = self.categories.len() as u64 + 1;
        let category = Category { id: category_id, name, active: true };
        self.categories.push(category);
        Ok(category_id)
    }

    /// Sets a category's active flag.
    pub fn toggle_category_status(
        &mut self,
        ctx: OpContext,
        category_id: u64,
        active: bool,
    ) -> (r: Result<(), Error>)
        requires
            old(self).wf(),
        ensures
            final(self).wf(),
            !ctx.caller_is_admin ==> r == Err::<(), Error>(Error::Authorization) && *final(self)
                == *old(self),
            ctx.caller_is_admin && !old(self).has_category(category_id) ==> r == Err::<(),
                Error,
            >(Error::NotFound) && *final(self) == *old(self),
            ctx.caller_is_admin && old(self).has_category(category_id) ==> {
                &&& r == Ok::<(), Error>(())
                &&& final(self).categories@ == old(self).categories@.update(
                    category_id - 1,
                    (Category { active: active, ..old(self).categories@[category_id - 1] }),
                )
                &&& final(self).markets == old(self).markets
                &&& final(self).books == old(self).books
            },
    {
        if !ctx.caller_is_admin {
            return Err(Error::Authorization);
        }
        if category_id == 0 || category_id > self.categories.len() as u64 {
            return Err(Error::NotFound);
        }
        let idx = (category_id - 1) as usize;
        let c = &mut self.categories[idx];
        c.active = active;
        Ok(())
    }

    /// Why `create_market` rejects its inputs, if it does, in the order the
    /// preconditions are checked.
    pub open spec fn create_market_error(
        &self,
        ctx: OpContext,
        betting_deadline: u64,
        category_id: u64,
        n_outcomes: int,
    ) -> Option<Error> {
        if !ctx.caller_is_admin {
            Some(Error::Authorization)
        } else if betting_deadline <= ctx.current_time {
            Some(Error::InvalidArgument)
        } else if !self.has_category(category_id) {
            Some(Error::NotFound)
        } else if !self.category_at(category_id).active {
            Some(Error::InvalidArgument)
        } else if n_outcomes < 2 {
            Some(Error::InvalidArgument)
        } else {
            None
        }
    }

    /// Opens a new market with the given outcomes and betting deadline.
    /// On success returns the new market id together with the payload of the
    /// creation notification the caller is expected to emit.
    pub fn create_market(
        &mut self,
        ctx: OpContext,
        question: String,
        betting_deadline: u64,
        category_id: u64,
        outcomes: Vec<String>,
    ) -> (r: Result<(u64, MarketCreatedEventData), Error>)
        requires
            old(self).wf(),
            old(self).markets@.len() < u64::MAX,
        ensures
            final(self).wf(),
            old(self).create_market_error(ctx, betting_deadline, category_id, outcomes@.len() as int)
                matches Some(e) ==> r is Err && r->Err_0 == e && *final(self) == *old(self),
            old(self).create_market_error(ctx, betting_deadline, category_id, outcomes@.len() as int)
                is None ==> {
                &&& r is Ok
                &&& r->Ok_0.0 == (old(self).markets@.len() + 1) as u64
                &&& r->Ok_0.1.question@ == question@
                &&& r->Ok_0.1.outcomes@ == outcomes@
                &&& final(self).markets@ == old(self).markets@.push(
                    (Market {
                        id: (old(self).markets@.len() + 1) as u64,
                        question: question,
                        category_id: category_id,
                        outcomes: outcomes,
                        creation_timestamp: ctx.current_time,
                        resolve_timestamp: 0,
                        betting_deadline: betting_deadline,
                        status: MarketStatus::Open,
                        winning_outcome_index: None,
                        total_egld_pool: 0,
                    }),
                )
                &&& final(self).books@.len() == old(self).books@.len() + 1
                &&& forall|j: int|
                    0 <= j < old(self).books@.len() ==> #[trigger] final(self).books@[j] == old(
                        self,
                    ).books@[j]
                &&& final(self).book_at((old(self).markets@.len() + 1) as u64).user_totals@.len()
                    == 0
                &&& final(self).book_at((old(self).markets@.len() + 1) as u64).winnings_claimed@
                    =~= Seq::<u64>::empty()
                &&& final(self).book_at((old(self).markets@.len() + 1) as u64).refund_claimed@
                    =~= Seq::<u64>::empty()
                &&& final(self).book_at((old(self).markets@.len() + 1) as u64).outcome_totals@
                    == Seq::new(outcomes@.len(), |o: int| 0u64)
                &&& final(self).book_at((old(self).markets@.len() + 1) as u64).bets@.len()
                    == outcomes@.len()
                &&& forall|o: int|
                    0 <= o < outcomes@.len() ==> (#[trigger] final(self).book_at(
                        (old(self).markets@.len() + 1) as u64,
                    ).bets@[o])@.len() == 0
                &&& final(self).categories == old(self).categories
            },
    {
        if !ctx.caller_is_admin {
            return Err(Error::Authorization);
        }
        if betting_deadline <= ctx.current_time {
            return Err(Error::InvalidArgument);
        }
        if category_id == 0 || category_id > self.categories.len() as u64 {
            return Err(Error::NotFound);
        }
        let cidx = (category_id - 1) as usize;
        if !self.categories[cidx].active {
            return Err(Error::InvalidArgument);
        }
        if outcomes.len() < 2 {
            return Err(Error::InvalidArgument);
        }
        let market_id = self.markets.len() as u64 + 1;
        let n = outcomes.len();
        let event_data = MarketCreatedEventData {
            question: question.clone(),
            outcomes: outcomes.clone(),
        };
        let market = Market {
            id: market_id,
            question,
            category_id,
            outcomes,
            creation_timestamp: ctx.current_time,
            resolve_timestamp: 0,
            betting_deadline,
            status: MarketStatus::Open,
            winning_outcome_index: None,
            total_egld_pool: 0,
        };
        let mut outcome_totals: Vec<u64> = Vec::new();
        let mut bets: Vec<StakeTable> = Vec::new();
        let mut o: usize = 0;
        while o < n
            invariant
                o <= n,
                outcome_totals@.len() == o,
                bets@.len() == o,
                sum_amounts(outcome_totals@) == 0,
                forall|j: int| 0 <= j < o ==> outcome_totals@[j] == 0,
                forall|j: int| 0 <= j < o ==> (#[trigger] bets@[j])@.len() == 0,
            decreases n - o,
        {
            proof {
                lemma_sum_amounts_push(outcome_totals@, 0);
            }
            outcome_totals.push(0);
            bets.push(StakeTable::new());
            o = o + 1;
        }
        let book = MarketBook {
            outcome_totals,
            bets,
            user_totals: StakeTable::new(),
            winnings_claimed: Vec::new(),
            refund_claimed: Vec::new(),
        };
        self.markets.push(market);
        self.books.push(book);
        proof {
            let i = self.books@.len() - 1;
            assert(self.books@[i].outcome_totals@ =~= Seq::new(n as nat, |o: int| 0u64));
            assert forall|q: u64| #[trigger] stake_of(self.books@[i].user_totals@, q)
                == stakes_across(tables_of(self.books@[i].bets@), q) by {
                assert(self.books@[i].user_totals@.len() == 0);
                assert forall|j: int|
                    0 <= j < tables_of(self.books@[i].bets@).len() implies (#[trigger] tables_of(
                    self.books@[i].bets@,
                )[j]).len() == 0 by {
                    assert(self.books@[i].bets@[j]@.len() == 0);
                }
                lemma_stakes_across_empty(tables_of(self.books@[i].bets@), q);
            }
        }
        Ok((market_id, event_data))
    }

    /// Why `cancel_market` rejects, if it does.
    pub open spec fn cancel_market_error(&self, ctx: OpContext, market_id: u64) -> Option<Error> {
        if !ctx.caller_is_admin {
            Some(Error::Authorization)
        } else if !self.has_market(market_id) {
            Some(Error::NotFound)
        } else if self.market_at(market_id).status != MarketStatus::Open {
            Some(Error::InvalidState)
        } else {
            None
        }
    }

    /// Cancels an open market. No value moves here: participants claim their
    /// refunds individually afterwards.
    pub fn cancel_market(&mut self, ctx: OpContext, market_id: u64) -> (r: Result<(), Error>)
        requires
            old(self).wf(),
        ensures
            final(self).wf(),
            old(self).cancel_market_error(ctx, market_id) matches Some(e) ==> r == Err::<(),
                Error,
            >(e) && *final(self) == *old(self),
            old(self).cancel_market_error(ctx, market_id) is None ==> {
                &&& r == Ok::<(), Error>(())
                &&& final(self).markets@ == old(self).markets@.update(
                    market_id - 1,
                    (Market { status: MarketStatus::Canceled, ..old(self).market_at(market_id) }),
                )
                &&& final(self).books == old(self).books
                &&& final(self).categories == old(self).categories
                &&& final(self).book_at(market_id).refund_claimed@.len() == 0
            },
    {
        if !ctx.caller_is_admin {
            return Err(Error::Authorization);
        }
        if market_id == 0 || market_id > self.markets.len() as u64 {
            return Err(Error::NotFound);
        }
        let idx = (market_id - 1) as usize;
        if self.markets[idx].status != MarketStatus::Open {
            return Err(Error::InvalidState);
        }
        let m = &mut self.markets[idx];
        m.status = MarketStatus::Canceled;
        Ok(())
    }

    /// Why `resolve_market` rejects, if it does.
    pub open spec fn resolve_market_error(
        &self,
        ctx: OpContext,
        market_id: u64,
        winning_outcome_index: usize,
    ) -> Option<Error> {
        if !ctx.caller_is_admin {
            Some(Error::Authorization)
        } else if !self.has_market(market_id) {
            Some(Error::NotFound)
        } else if self.market_at(market_id).status != MarketStatus::Open {
            Some(Error::InvalidState)
        } else if winning_outcome_index >= self.market_at(market_id).outcomes@.len() {
            Some(Error::InvalidArgument)
        } else {
            None
        }
    }

    /// Resolves an open market to a single winning outcome. Resolution is
    /// not gated on the betting deadline: the administrator may resolve
    /// early, which closes betting.
    pub fn resolve_market(
        &mut self,
        ctx: OpContext,
        market_id: u64,
        winning_outcome_index: usize,
    ) -> (r: Result<(), Error>)
        requires
            old(self).wf(),
        ensures
            final(self).wf(),
            old(self).resolve_market_error(ctx, market_id, winning_outcome_index) matches Some(e)
                ==> r == Err::<(), Error>(e) && *final(self) == *old(self),
            old(self).resolve_market_error(ctx, market_id, winning_outcome_index) is None ==> {
                &&& r == Ok::<(), Error>(())
                &&& final(self).markets@ == old(self).markets@.update(
                    market_id - 1,
                    (Market {
                        status: MarketStatus::Resolved,
                        winning_outcome_index: Some(winning_outcome_index),
                        ..old(self).market_at(market_id)
                    }),
                )
                &&& final(self).books == old(self).books
                &&& final(self).categories == old(self).categories
            },
    {
        if !ctx.caller_is_admin {
            return Err(Error::Authorization);
        }
        if market_id == 0 || market_id > self.markets.len() as u64 {
            return Err(Error::NotFound);
        }
        let idx = (market_id - 1) as usize;
        if self.markets[idx].status != MarketStatus::Open {
            return Err(Error::InvalidState);
        }
        if winning_outcome_index >= self.markets[idx].outcomes.len() {
            return Err(Error::InvalidArgument);
        }
        let m = &mut self.markets[idx];
        m.status = MarketStatus::Resolved;
        m.winning_outcome_index = Some(winning_outcome_index);
        Ok(())
    }

    /// Why `place_bet` rejects, if it does.
    pub open spec fn place_bet_error(
        &self,
        ctx: OpContext,
        market_id: u64,
        outcome_index: usize,
        payment: u64,
    ) -> Option<Error> {
        if payment == 0 {
            Some(Error::InvalidArgument)
        } else if !self.has_market(market_id) {
            Some(Error::NotFound)
        } else if self.market_at(market_id).status != MarketStatus::Open {
            Some(Error::InvalidState)
        } else if ctx.current_time >= self.market_at(market_id).betting_deadline {
            Some(Error::DeadlinePassed)
        } else if outcome_index >= self.market_at(market_id).outcomes@.len() {
            Some(Error::InvalidArgument)
        } else {
            None
        }
    }

    /// Stakes `payment` on one outcome of an open market, strictly before
    /// the betting deadline. All four ledger updates happen together: the
    /// caller's bet record, the caller's per-market total, the outcome
    /// aggregate, and the market's total pool.
    ///
    /// The one precondition beyond the rejections below is the machine
    /// limit that the grown pool still fits the 64-bit value range; the
    /// surrounding ledger checks it before the call.
    pub fn place_bet(
        &mut self,
        ctx: OpContext,
        market_id: u64,
        outcome_index: usize,
        payment: u64,
    ) -> (r: Result<(), Error>)
        requires
            old(self).wf(),
            old(self).has_market(market_id) ==> old(self).market_at(market_id).total_egld_pool
                + payment <= u64::MAX,
        ensures
            final(self).wf(),
            old(self).place_bet_error(ctx, market_id, outcome_index, payment) matches Some(e) ==> r
                == Err::<(), Error>(e) && *final(self) == *old(self),
            old(self).place_bet_error(ctx, market_id, outcome_index, payment) is None ==> ({
                let oi = outcome_index as int;
                &&& r == Ok::<(), Error>(())
                &&& final(self).markets@ == old(self).markets@.update(
                    market_id - 1,
                    (Market {
                        total_egld_pool: (old(self).market_at(market_id).total_egld_pool
                            + payment) as u64,
                        ..old(self).market_at(market_id)
                    }),
                )
                &&& final(self).categories == old(self).categories
                &&& final(self).books@.len() == old(self).books@.len()
                &&& forall|j: int|
                    0 <= j < old(self).books@.len() && j != market_id - 1
                        ==> #[trigger] final(self).books@[j] == old(self).books@[j]
                &&& final(self).book_at(market_id).outcome_totals@ == old(self).book_at(
                    market_id,
                ).outcome_totals@.update(
                    oi,
                    (old(self).outcome_total_of(market_id, oi) + payment) as u64,
                )
                &&& final(self).bet_of(market_id, oi, ctx.caller) == old(self).bet_of(
                    market_id,
                    oi,
                    ctx.caller,
                ) + payment
                &&& forall|q: u64|
                    q != ctx.caller ==> #[trigger] final(self).bet_of(market_id, oi, q) == old(
                        self,
                    ).bet_of(market_id, oi, q)
                &&& forall|o: int|
                    0 <= o < old(self).book_at(market_id).bets@.len() && o != oi
                        ==> #[trigger] final(self).book_at(market_id).bets@[o] == old(
                        self,
                    ).book_at(market_id).bets@[o]
                &&& final(self).user_total_of(market_id, ctx.caller) == old(self).user_total_of(
                    market_id,
                    ctx.caller,
                ) + payment
                &&& forall|q: u64|
                    q != ctx.caller ==> #[trigger] final(self).user_total_of(market_id, q) == old(
                        self,
                    ).user_total_of(market_id, q)
                &&& final(self).book_at(market_id).winnings_claimed == old(self).book_at(
                    market_id,
                ).winnings_claimed
                &&& final(self).book_at(market_id).refund_claimed == old(self).book_at(
                    market_id,
                ).refund_claimed
            }),
    {
        if payment == 0 {
            return Err(Error::InvalidArgument);
        }
        if market_id == 0 || market_id > self.markets.len() as u64 {
            return Err(Error::NotFound);
        }
        let idx = (market_id - 1) as usize;
        if self.markets[idx].status != MarketStatus::Open {
            return Err(Error::InvalidState);
        }
        if ctx.current_time >= self.markets[idx].betting_deadline {
            return Err(Error::DeadlinePassed);
        }
        if outcome_index >= self.markets[idx].outcomes.len() {
            return Err(Error::InvalidArgument);
        }
        proof {
            assert(book_wf(self.books@[idx as int], self.markets@[idx as int]));
            lemma_sum_amounts_element(self.books@[idx as int].outcome_totals@, outcome_index as int);
        }
        let ghost pre = *self;
        let book = &mut self.books[idx];
        let table = &mut book.bets[outcome_index];
        table.add(ctx.caller, payment);
        let prev_total = book.outcome_totals[outcome_index];
        book.outcome_totals[outcome_index] = prev_total + payment;
        book.user_totals.add(ctx.caller, payment);
        let m = &mut self.markets[idx];
        let prev_pool = m.total_egld_pool;
        m.total_egld_pool = prev_pool + payment;
        proof {
            let i = idx as int;
            let oi = outcome_index as int;
            lemma_sum_amounts_update(
                pre.books@[i].outcome_totals@,
                oi,
                (pre.books@[i].outcome_totals@[oi] + payment) as u64,
            );
            assert forall|j: int|
                0 <= j < self.markets@.len() && j != i implies market_wf(
                #[trigger] self.markets@[j],
                j,
            ) && book_wf(self.books@[j], self.markets@[j]) by {
                assert(market_wf(pre.markets@[j], j));
                assert(book_wf(pre.books@[j], pre.markets@[j]));
            }
            assert(market_wf(self.markets@[i], i));
            assert forall|o: int|
                0 <= o < self.books@[i].bets@.len() implies total_staked(
                (#[trigger] self.books@[i].bets@[o])@,
            ) == self.books@[i].outcome_totals@[o] && self.books@[i].bets@[o].wf() by {
                if o != oi {
                    assert(self.books@[i].bets@[o] == pre.books@[i].bets@[o]);
                }
            }
            let tables0 = tables_of(pre.books@[i].bets@);
            let newt = self.books@[i].bets@[oi]@;
            assert(self.books@[i].bets@ =~= pre.books@[i].bets@.update(oi, self.books@[i].bets@[oi]));
            assert(tables_of(self.books@[i].bets@) =~= tables0.update(oi, newt));
            assert forall|q: u64| #[trigger] stake_of(self.books@[i].user_totals@, q)
                == stakes_across(tables_of(self.books@[i].bets@), q) by {
                lemma_stakes_across_update(tables0, oi, newt, q);
                assert(tables0[oi] == pre.books@[i].bets@[oi]@);
                assert(stake_of(pre.books@[i].user_totals@, q) == stakes_across(tables0, q));
            }
            assert(book_wf(self.books@[i], self.markets@[i]));
        }
        Ok(())
    }

    /// Why `claim_winnings` rejects, if it does. The duplicate-claim guard
    /// is consulted first, as stored claims only exist for stored markets.
    pub open spec fn claim_winnings_error(&self, market_id: u64, caller: u64) -> Option<Error> {
        if self.has_market(market_id) && self.winnings_claimed_by(market_id, caller) {
            Some(Error::AlreadyClaimed)
        } else if !self.has_market(market_id) {
            Some(Error::NotFound)
        } else if self.market_at(market_id).status != MarketStatus::Resolved {
            Some(Error::InvalidState)
        } else if self.bet_of(
            market_id,
            self.market_at(market_id).winning_outcome_index->0 as int,
            caller,
        ) == 0 {
            Some(Error::NoStake)
        } else if spec_payout(
            self.bet_of(
                market_id,
                self.market_at(market_id).winning_outcome_index->0 as int,
                caller,
            ) as int,
            self.market_at(market_id).total_egld_pool as int,
            self.outcome_total_of(
                market_id,
                self.market_at(market_id).winning_outcome_index->0 as int,
            ) as int,
        ) == 0 {
            Some(Error::ZeroPayout)
        } else {
            None
        }
    }

    /// Claims the caller's winnings from a resolved market, once.
    ///
    /// The fee is two percent of the market's whole pool and is levied anew
    /// on every individual claim; the payout is the caller's proportional
    /// share of the distributable pool, truncated. A share that truncates to
    /// zero cannot be claimed. The caller of the library transfers
    /// `fee` to the administrator and `payout` to the claimant.
    pub fn claim_winnings(&mut self, ctx: OpContext, market_id: u64) -> (r: Result<
        WinningsPayout,
        Error,
    >)
        requires
            old(self).wf(),
        ensures
            final(self).wf(),
            old(self).claim_winnings_error(market_id, ctx.caller) matches Some(e) ==> r is Err
                && r->Err_0 == e && *final(self) == *old(self),
            old(self).claim_winnings_error(market_id, ctx.caller) is None ==> ({
                let m = old(self).market_at(market_id);
                let w = m.winning_outcome_index->0 as int;
                let stake = old(self).bet_of(market_id, w, ctx.caller);
                let aggregate = old(self).outcome_total_of(market_id, w);
                &&& r is Ok
                &&& r->Ok_0.fee == spec_fee(m.total_egld_pool as int)
                &&& r->Ok_0.distributable == spec_distributable(m.total_egld_pool as int)
                &&& r->Ok_0.payout == spec_payout(
                    stake as int,
                    m.total_egld_pool as int,
                    aggregate as int,
                )
                &&& final(self).markets == old(self).markets
                &&& final(self).categories == old(self).categories
                &&& final(self).books@.len() == old(self).books@.len()
                &&& forall|j: int|
                    0 <= j < old(self).books@.len() && j != market_id - 1
                        ==> #[trigger] final(self).books@[j] == old(self).books@[j]
                &&& final(self).book_at(market_id).winnings_claimed@ == old(self).book_at(
                    market_id,
                ).winnings_claimed@.push(ctx.caller)
                &&& final(self).book_at(market_id).refund_claimed == old(self).book_at(
                    market_id,
                ).refund_claimed
                &&& final(self).book_at(market_id).outcome_totals == old(self).book_at(
                    market_id,
                ).outcome_totals
                &&& final(self).book_at(market_id).bets == old(self).book_at(market_id).bets
                &&& final(self).book_at(market_id).user_totals == old(self).book_at(
                    market_id,
                ).user_totals
                &&& forall|q: u64|
                    #[trigger] final(self).winnings_claimed_by(market_id, q) <==> (q == ctx.caller
                        || old(self).winnings_claimed_by(market_id, q))
            }),
    {
        if market_id == 0 || market_id > self.markets.len() as u64 {
            return Err(Error::NotFound);
        }
        let idx = (market_id - 1) as usize;
        if contains_participant(&self.books[idx].winnings_claimed, ctx.caller) {
            return Err(Error::AlreadyClaimed);
        }
        if self.markets[idx].status != MarketStatus::Resolved {
            return Err(Error::InvalidState);
        }
        let w = match self.markets[idx].winning_outcome_index {
            Some(w) => w,
            None => unreached(),
        };
        let stake = self.books[idx].bets[w].amount_of(ctx.caller);
        if stake == 0 {
            return Err(Error::NoStake);
        }
        let aggregate = self.books[idx].outcome_totals[w];
        let pool = self.markets[idx].total_egld_pool;
        proof {
            assert(book_wf(self.books@[idx as int], self.markets@[idx as int]));
            lemma_stake_le_total(self.books@[idx as int].bets@[w as int]@, ctx.caller);
            lemma_sum_amounts_element(self.books@[idx as int].outcome_totals@, w as int);
            lemma_fee_bounds(pool as int);
        }
        let fee128: u128 = pool as u128 * 2 / 100;
        let fee: u64 = fee128 as u64;
        let distributable: u64 = pool - fee;
        proof {
            lemma_payout_bounds(stake as int, pool as int, aggregate as int);
            lemma_mul_upper_bound(
                stake as int,
                u64::MAX as int,
                distributable as int,
                u64::MAX as int,
            );
        }
        let payout128: u128 = stake as u128 * distributable as u128 / aggregate as u128;
        let payout: u64 = payout128 as u64;
        if payout == 0 {
            return Err(Error::ZeroPayout);
        }
        let ghost wc0 = self.books@[idx as int].winnings_claimed@;
        let book = &mut self.books[idx];
        book.winnings_claimed.push(ctx.caller);
        proof {
            let i = idx as int;
            lemma_push_contains(wc0, ctx.caller);
            assert(self.books@[i].winnings_claimed@ == wc0.push(ctx.caller));
            assert forall|j: int|
                0 <= j < self.markets@.len() && j != i implies book_wf(
                #[trigger] self.books@[j],
                self.markets@[j],
            ) by {
                assert(book_wf(old(self).books@[j], old(self).markets@[j]));
            }
            assert(book_wf(self.books@[i], self.markets@[i]));
        }
        Ok(WinningsPayout { fee, distributable, payout })
    }

    /// Why `claim_refund` rejects, if it does.
    pub open spec fn claim_refund_error(&self, market_id: u64, caller: u64) -> Option<Error> {
        if self.has_market(market_id) && self.refund_claimed_by(market_id, caller) {
            Some(Error::AlreadyClaimed)
        } else if !self.has_market(market_id) {
            Some(Error::NotFound)
        } else if self.market_at(market_id).status != MarketStatus::Canceled {
            Some(Error::InvalidState)
        } else if self.user_total_of(market_id, caller) == 0 {
            Some(Error::NoStake)
        } else {
            None
        }
    }

    /// Claims the caller's refund from a canceled market, once: the full
    /// amount the caller staked across all outcomes, with no fee deducted.
    /// The caller of the library transfers the returned amount back to the
    /// participant.
    pub fn claim_refund(&mut self, ctx: OpContext, market_id: u64) -> (r: Result<u64, Error>)
        requires
            old(self).wf(),
        ensures
            final(self).wf(),
            old(self).claim_refund_error(market_id, ctx.caller) matches Some(e) ==> r == Err::<
                u64,
                Error,
            >(e) && *final(self) == *old(self),
            old(self).claim_refund_error(market_id, ctx.caller) is None ==> ({
                &&& r == Ok::<u64, Error>(old(self).user_total_of(market_id, ctx.caller))
                &&& final(self).markets == old(self).markets
                &&& final(self).categories == old(self).categories
                &&& final(self).books@.len() == old(self).books@.len()
                &&& forall|j: int|
                    0 <= j < old(self).books@.len() && j != market_id - 1
                        ==> #[trigger] final(self).books@[j] == old(self).books@[j]
                &&& final(self).book_at(market_id).refund_claimed@ == old(self).book_at(
                    market_id,
                ).refund_claimed@.push(ctx.caller)
                &&& final(self).book_at(market_id).winnings_claimed == old(self).book_at(
                    market_id,
                ).winnings_claimed
                &&& final(self).book_at(market_id).outcome_totals == old(self).book_at(
                    market_id,
                ).outcome_totals
                &&& final(self).book_at(market_id).bets == old(self).book_at(market_id).bets
                &&& final(self).book_at(market_id).user_totals == old(self).book_at(
                    market_id,
                ).user_totals
                &&& forall|q: u64|
                    #[trigger] final(self).refund_claimed_by(market_id, q) <==> (q == ctx.caller
                        || old(self).refund_claimed_by(market_id, q))
            }),
    {
        if market_id == 0 || market_id > self.markets.len() as u64 {
            return Err(Error::NotFound);
        }
        let idx = (market_id - 1) as usize;
        if contains_participant(&self.books[idx].refund_claimed, ctx.caller) {
            return Err(Error::AlreadyClaimed);
        }
        if self.markets[idx].status != MarketStatus::Canceled {
            return Err(Error::InvalidState);
        }
        let total_user_bet = self.books[idx].user_totals.amount_of(ctx.caller);
        if total_user_bet == 0 {
            return Err(Error::NoStake);
        }
        let ghost rc0 = self.books@[idx as int].refund_claimed@;
        let book = &mut self.books[idx];
        book.refund_claimed.push(ctx.caller);
        proof {
            let i = idx as int;
            lemma_push_contains(rc0, ctx.caller);
            assert(self.books@[i].refund_claimed@ == rc0.push(ctx.caller));
            assert forall|j: int|
                0 <= j < self.markets@.len() && j != i implies book_wf(
                #[trigger] self.books@[j],
                self.markets@[j],
            ) by {
                assert(book_wf(old(self).books@[j], old(self).markets@[j]));
            }
            assert(book_wf(self.books@[i], self.markets@[i]));
        }
        Ok(total_user_bet)
    }

    /// The caller's cumulative stake on one outcome of one market; zero when
    /// the market or outcome does not exist (stored ledgers read a missing
    /// key as the default).
    pub fn bets(&self, market_id: u64, outcome_index: usize, participant: u64) -> (r: u64)
        requires
            self.wf(),
        ensures
            self.has_market(market_id) && outcome_index < self.market_at(market_id).outcomes@.len()
                ==> r == self.bet_of(market_id, outcome_index as int, participant),
            !(self.has_market(market_id) && outcome_index < self.market_at(
                market_id,
            ).outcomes@.len()) ==> r == 0,
    {
        if market_id == 0 || market_id > self.markets.len() as u64 {
            return 0;
        }
        let idx = (market_id - 1) as usize;
        if outcome_index >= self.markets[idx].outcomes.len() {
            return 0;
        }
        self.books[idx].bets[outcome_index].amount_of(participant)
    }

    /// The aggregate staked on one outcome of one market; zero when the
    /// market or outcome does not exist.
    pub fn total_bet_per_outcome(&self, market_id: u64, outcome_index: usize) -> (r: u64)
        requires
            self.wf(),
        ensures
            self.has_market(market_id) && outcome_index < self.market_at(market_id).outcomes@.len()
                ==> r == self.outcome_total_of(market_id, outcome_index as int),
            !(self.has_market(market_id) && outcome_index < self.market_at(
                market_id,
            ).outcomes@.len()) ==> r == 0,
    {
        if market_id == 0 || market_id > self.markets.len() as u64 {
            return 0;
        }
        let idx = (market_id - 1) as usize;
        if outcome_index >= self.markets[idx].outcomes.len() {
            return 0;
        }
        self.books[idx].outcome_totals[outcome_index]
    }

    /// The participant's total staked across all outcomes of one market;
    /// zero when the market does not exist.
    pub fn bets_in_market_by_user(&self, participant: u64, market_id: u64) -> (r: u64)
        requires
            self.wf(),
        ensures
            self.has_market(market_id) ==> r == self.user_total_of(market_id, participant),
            !self.has_market(market_id) ==> r == 0,
    {
        if market_id == 0 || market_id > self.markets.len() as u64 {
            return 0;
        }
        let idx = (market_id - 1) as usize;
        self.books[idx].user_totals.amount_of(participant)
    }

    /// Whether the participant already claimed winnings for the market;
    /// false when the market does not exist.
    pub fn claimed_winnings(&self, market_id: u64, participant: u64) -> (r: bool)
        requires
            self.wf(),
        ensures
            self.has_market(market_id) ==> r == self.winnings_claimed_by(market_id, participant),
            !self.has_market(market_id) ==> r == false,
    {
        if market_id == 0 || market_id > self.markets.len() as u64 {
            return false;
        }
        let idx = (market_id - 1) as usize;
        contains_participant(&self.books[idx].winnings_claimed, participant)
    }

    /// Whether the participant already claimed a refund for the market;
    /// false when the market does not exist.
    pub fn claimed_refund(&self, market_id: u64, participant: u64) -> (r: bool)
        requires
            self.wf(),
        ensures
            self.has_market(market_id) ==> r == self.refund_claimed_by(market_id, participant),
            !self.has_market(market_id) ==> r == false,
    {
        if market_id == 0 || market_id > self.markets.len() as u64 {
            return false;
        }
        let idx = (market_id - 1) as usize;
        contains_participant(&self.books[idx].refund_claimed, participant)
    }

    /// The stored record of one market.
    pub fn get_market(&self, market_id: u64) -> (r: Result<Market, Error>)
        ensures
            !self.has_market(market_id) ==> r is Err && r->Err_0 == Error::NotFound,
            self.has_market(market_id) ==> r is Ok && market_matches(
                r->Ok_0,
                self.market_at(market_id),
            ),
    {
        if market_id == 0 || market_id > self.markets.len() as u64 {
            return Err(Error::NotFound);
        }
        let idx = (market_id - 1) as usize;
        Ok(self.markets[idx].clone())
    }

    /// All stored categories, in id order.
    pub fn get_all_categories(&self) -> (r: Vec<Category>)
        ensures
            r@.len() == self.categories@.len(),
            forall|i: int|
                0 <= i < r@.len() ==> category_matches(#[trigger] r@[i], self.categories@[i]),
    {
        let mut out: Vec<Category> = Vec::new();
        let n = self.categories.len();
        let mut i: usize = 0;
        while i < n
            invariant
                i <= n,
                n == self.categories.len(),
                out@.len() == i,
                forall|j: int|
                    0 <= j < i ==> category_matches(#[trigger] out@[j], self.categories@[j]),
            decreases n - i,
        {
            out.push(self.categories[i].clone());
            i = i + 1;
        }
        out
    }
}

/// Appending a participant to a claim list adds exactly that participant.
proof fn lemma_push_contains(s: Seq<u64>, v: u64)
    ensures
        forall|q: u64| #[trigger] s.push(v).contains(q) <==> (q == v || s.contains(q)),
{
    assert forall|q: u64| #[trigger] s.push(v).contains(q) <==> (q == v || s.contains(q)) by {
        if s.push(v).contains(q) {
            let j = choose|j: int| 0 <= j < s.push(v).len() && s.push(v)[j] == q;
            if j < s.len() {
                assert(s[j] == q);
            }
        }
        if s.contains(q) {
            let j = choose|j: int| 0 <= j < s.len() && s[j] == q;
            assert(s.push(v)[j] == q);
        }
        assert(s.push(v)[s.len() as int] == v);
    }
}

/// Linear membership test on a list of participants.
fn contains_participant(v: &Vec<u64>, x: u64) -> (r: bool)
    ensures
        r == v@.contains(x),
{
    let n = v.len();
    let mut i: usize = 0;
    while i < n
        invariant
            i <= n,
            n == v.len(),
            forall|j: int| 0 <= j < i ==> v@[j] != x,
        decreases n - i,
    {
        if v[i] == x {
            proof {
                assert(v@[i as int] == x);
            }
            return true;
        }
        i = i + 1;
    }
    false
}

/// Field-for-field agreement of two market records, with the strings
/// compared by their contents.
pub open spec fn market_matches(a: Market, b: Market) -> bool {
    &&& a.id == b.id
    &&& a.question@ == b.question@
    &&& a.category_id == b.category_id
    &&& a.outcomes@ == b.outcomes@
    &&& a.creation_timestamp == b.creation_timestamp
    &&& a.resolve_timestamp == b.resolve_timestamp
    &&& a.betting_deadline == b.betting_deadline
    &&& a.status == b.status
    &&& a.winning_outcome_index == b.winning_outcome_index
    &&& a.total_egld_pool == b.total_egld_pool
}

/// Field-for-field agreement of two category records.
pub open spec fn category_matches(a: Category, b: Category) -> bool {
    &&& a.id == b.id
    &&& a.name@ == b.name@
    &&& a.active == b.active
}

} // verus!
