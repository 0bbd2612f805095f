use vstd::prelude::*;

verus! {

/// The reasons for which an operation is rejected.
///
/// Every failure is a precondition violation: the whole operation is refused
/// and no state changes, mirroring the all-or-nothing transaction model of
/// the hosting ledger.
#[derive(Clone, Copy, PartialEq, Eq, Structural, Debug)]
pub enum Error {
    /// A non-administrator invoked an administrator-only operation.
    Authorization,
    /// The market or category id does not reference a stored record.
    NotFound,
    /// The market is in the wrong lifecycle state for the requested
    /// transition.
    InvalidState,
    /// An argument is invalid: an outcome index out of range, fewer than two
    /// outcomes, a non-positive payment, a deadline not in the future, or an
    /// inactive category.
    InvalidArgument,
    /// A bet arrived at or after the market's betting deadline.
    DeadlinePassed,
    /// The caller already claimed winnings (or a refund) for this market.
    AlreadyClaimed,
    /// The caller's proportional share of the pool truncates to zero.
    ZeroPayout,
    /// The caller has nothing staked that the claim could pay out.
    NoStake,
}

impl Error {
    /// The reason string for each rejection.
    pub open spec fn message_spec(&self) -> Seq<char> {
        match self {
            Error::Authorization => "Endpoint can only be called by owner"@,
            Error::NotFound => "Unknown market or category ID"@,
            Error::InvalidState => "Market is not in the required state"@,
            Error::InvalidArgument => "Invalid argument"@,
            Error::DeadlinePassed => "Betting deadline has passed"@,
            Error::AlreadyClaimed => "Already claimed for this market"@,
            Error::ZeroPayout => "Payout amount is zero"@,
            Error::NoStake => "You did not place a qualifying bet in this market"@,
        }
    }

    /// A human-readable reason string for the rejection.
    pub fn message(&self) -> (r: &'static str)
        ensures
            r@ == self.message_spec(),
    {
        match self {
            Error::Authorization => "Endpoint can only be called by owner",
            Error::NotFound => "Unknown market or category ID",
            Error::InvalidState => "Market is not in the required state",
            Error::InvalidArgument => "Invalid argument",
            Error::DeadlinePassed => "Betting deadline has passed",
            Error::AlreadyClaimed => "Already claimed for this market",
            Error::ZeroPayout => "Payout amount is zero",
            Error::NoStake => "You did not place a qualifying bet in this market",
        }
    }
}

} // verus!
