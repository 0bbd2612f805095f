//! Settlement core of a pooled-outcome prediction market.
//!
//! An administrator opens markets with two or more mutually exclusive
//! outcomes, participants stake value on an outcome before a deadline, and
//! once the administrator resolves the market to a single winning outcome the
//! pool is shared among the winners in proportion to their stake, net of a
//! fixed platform fee. A market may instead be canceled, after which every
//! participant can reclaim exactly what they staked.
//!
//! The library is the accounting and state-machine logic alone: the hosting
//! ledger delivers one authenticated operation at a time, reports the caller,
//! the current time and whether the caller is the administrator, and performs
//! the actual value transfers that successful operations request.

pub mod contract;
pub mod errors;
pub mod laws;
pub mod market;
pub mod payout;
pub mod stake_table;
pub mod sums;
