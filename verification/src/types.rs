//! Base identifiers, quantities and protocol constants.

use vstd::prelude::*;

verus! {

/// An account (a user, a token contract, or a sub-account of the pool).
pub type AccountId = u64;

/// A quantity of a fungible asset or of claim tokens.
pub type Balance = u128;

/// A point in time, in seconds.
pub type Timestamp = u64;

/// A loan identifier, allocated by the loan registry starting at 1.
pub type LoanId = u8;

/// One year in seconds; the period over which the yearly rate applies.
pub const YEAR: Timestamp = 31536000;

/// Yearly interest rate in basis points.
pub const APY: Balance = 1000;

/// Interest is expressed in basis points: parts per ten thousand.
pub const BASIS_POINTS: Balance = 10000;

/// Numerator of the share of collateral value a borrower may draw.
pub const BORROW_PERCENT: Balance = 70;

/// Numerator of the share of collateral value at which a loan
/// becomes liquidatable.
pub const LIQUIDATION_PERCENT: Balance = 75;

/// Numerator of the liquidation reward, over `REWARD_DENOMINATOR`.
pub const REWARD_NUMERATOR: Balance = 1000;

/// Denominator of the liquidation reward: the reward is one percent.
pub const REWARD_DENOMINATOR: Balance = 100000;

} // verus!
