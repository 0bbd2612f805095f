use vstd::prelude::*;

verus! {

/// Lifecycle state of a market.
///
/// The only transitions are `Open -> Resolved` and `Open -> Canceled`;
/// `Resolved` and `Canceled` are terminal.
#[derive(Clone, Copy, PartialEq, Eq, Structural, Debug)]
pub enum MarketStatus {
    /// The market accepts bets (until its betting deadline).
    Open,
    /// A winning outcome has been recorded; winners may claim.
    Resolved,
    /// The market was canceled; participants may reclaim their stakes.
    Canceled,
}

/// A category that markets reference; only active categories may be used
/// when a market is created.
#[derive(Debug)]
pub struct Category {
    pub id: u64,
    pub name: String,
    pub active: bool,
}

/// A single prediction market.
#[derive(Debug)]
pub struct Market {
    /// 1-based id, assigned sequentially and never reused.
    pub id: u64,
    /// The proposition the market settles.
    pub question: String,
    /// Reference into the category registry.
    pub category_id: u64,
    /// The mutually exclusive outcome labels; at least two, fixed at
    /// creation.
    pub outcomes: Vec<String>,
    pub creation_timestamp: u64,
    /// Unused until resolution; kept as part of the stored record.
    pub resolve_timestamp: u64,
    /// Bets are accepted strictly before this time.
    pub betting_deadline: u64,
    pub status: MarketStatus,
    /// Present exactly when the market is resolved.
    pub winning_outcome_index: Option<usize>,
    /// Running total of all value ever staked into the market.
    pub total_egld_pool: u64,
}

/// The payload of the notification emitted when a market is created.
#[derive(Debug)]
pub struct MarketCreatedEventData {
    pub question: String,
    pub outcomes: Vec<String>,
}

/// The request-scoped context the hosting ledger supplies with each
/// operation: who calls, whether that caller is the administrator, and the
/// ledger-reported current time.
#[derive(Clone, Copy, PartialEq, Eq, Structural, Debug)]
pub struct OpContext {
    /// The calling participant, as the ledger identifies it.
    pub caller: u64,
    /// Whether the caller is the administrator.
    pub caller_is_admin: bool,
    /// The timestamp of the operation being executed.
    pub current_time: u64,
}

impl Clone for Category {
    fn clone(&self) -> (r: Self)
        ensures
            r.id == self.id,
            r.name@ == self.name@,
            r.active == self.active,
    {
        Category { id: self.id, name: self.name.clone(), active: self.active }
    }
}

impl Clone for Market {
    fn clone(&self) -> (r: Self)
        ensures
            r.id == self.id,
            r.question@ == self.question@,
            r.category_id == self.category_id,
            r.outcomes@ == self.outcomes@,
            r.creation_timestamp == self.creation_timestamp,
            r.resolve_timestamp == self.resolve_timestamp,
            r.betting_deadline == self.betting_deadline,
            r.status == self.status,
            r.winning_outcome_index == self.winning_outcome_index,
            r.total_egld_pool == self.total_egld_pool,
    {
        Market {
            id: self.id,
            question: self.question.clone(),
            category_id: self.category_id,
            outcomes: self.outcomes.clone(),
            creation_timestamp: self.creation_timestamp,
            resolve_timestamp: self.resolve_timestamp,
            betting_deadline: self.betting_deadline,
            status: self.status,
            winning_outcome_index: self.winning_outcome_index,
            total_egld_pool: self.total_egld_pool,
        }
    }
}

} // verus!
