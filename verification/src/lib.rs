//! A collateralized lending protocol: depositors place fungible assets into
//! shared pools and receive proportional claim tokens; borrowers pledge
//! collateral to draw pooled assets, accrue linear interest, repay in full or
//! in part, and can be liquidated once the collateral value falls to the
//! liquidation threshold fixed at origination.
//!
//! The crate is a closed, verified model: token ledgers, the loan registry and
//! the pool manager are all plain data, and every operation takes the calling
//! account (and, where relevant, the current time) as an explicit argument.

pub mod types;
pub mod errors;
pub mod ledger;
pub mod loan;
pub mod manager;
pub mod laws;
