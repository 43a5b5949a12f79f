//! Error types: every failure of the protocol is a typed result, never a panic.

use vstd::prelude::*;

verus! {

/// Failures of a fungible token ledger.
#[derive(Clone, Copy, Debug, PartialEq, Eq, Structural)]
pub enum TokenError {
    /// The named token has no ledger.
    TokenNotFound,
    /// The caller is not the ledger's owner (mint and burn are owner-gated).
    NotOwner,
    /// The debited account's balance, or the recorded supply, is too small.
    InsufficientBalance,
    /// The spender's allowance is smaller than the requested amount.
    InsufficientAllowance,
    /// A balance or the supply would exceed the largest representable amount.
    Overflow,
}

/// Failures of the loan registry.
#[derive(Clone, Copy, Debug, PartialEq, Eq, Structural)]
pub enum LoanError {
    /// The caller is not the account the registry was wired to at construction.
    NotAuthorized,
    /// No record exists under the given loan id.
    LoanNotFound,
    /// The id counter has reached its hard ceiling; ids are never reused.
    LoanIdExhausted,
    /// A record already sits where the next id points; ids are corrupt.
    LoanAlreadyExists,
    /// The caller does not hold the loan's ownership token.
    NotTheLoanOwner,
}

/// Failures of the pool manager, the protocol's entry point.
#[derive(Clone, Copy, Debug, PartialEq, Eq, Structural)]
pub enum PoolManagerError {
    /// The caller's allowance to the pool does not cover the amount.
    InsufficientAllowance,
    /// The caller's token balance does not cover the amount.
    InsufficientBalance,
    /// The pool's own holdings do not cover what it would have to pay out.
    InsufficientPoolBalance,
    /// The asset is not lendable (no pool), or a pool refers to a token
    /// that does not exist.
    AssetNotFound,
    /// The asset already has a pool.
    AssetAlreadySupported,
    /// A pool can only be retired once its balance and claim supply are zero.
    PoolIsNotEmpty,
    /// The asset is already accepted as collateral.
    CollateralAlreadySupported,
    /// The asset is already not accepted as collateral.
    CollateralAlreadyUnsupported,
    /// The asset is not accepted as collateral.
    CollateralNotSupported,
    /// The borrowable amount would not be strictly below the liquidation
    /// threshold; the defensive ratio check failed.
    AmountNotSupported,
    /// Only the borrower, holder of the loan's ownership token, may close it.
    NotTheLoanOwner,
    /// The loan was already marked liquidated.
    LoanAlreadyLiquidated,
    /// The loan is healthy: its collateral value is above the threshold.
    LoanUnliquidable,
    /// The caller lacks the admin role.
    AccessControlError,
    /// The operation is gated off while the manager is paused.
    PausableError,
    /// A failure of the loan registry, passed through unchanged.
    LoanError(LoanError),
}

} // verus!
