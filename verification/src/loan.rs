//! The loan registry: a ledger of collateralized borrowing positions.
//!
//! Each loan is a [`LoanInfo`] record stored under a strictly increasing
//! [`LoanId`](crate::types::LoanId) starting at 1; ids are never reused, and
//! allocation fails with a hard error once the counter reaches its ceiling.
//! The record's `borrower` field doubles as the loan's ownership token: the
//! record and the token are created together and destroyed together, and only
//! the holder may close the loan. Every mutating operation is gated on the
//! account the registry was wired to at construction (the pool manager).

use vstd::prelude::*;
use std::collections::HashMap;
use crate::types::{AccountId, Balance, Timestamp, LoanId};
use crate::errors::LoanError;

verus! {

/// Everything the protocol records about one open loan.
#[derive(Clone, Copy, Debug, PartialEq, Eq, Structural)]
pub struct LoanInfo {
    /// The account that opened the loan; holder of its ownership token.
    pub borrower: AccountId,
    /// The pledged asset.
    pub collateral_token: AccountId,
    /// How much of the pledged asset the pool still holds for this loan.
    pub collateral_amount: Balance,
    /// The borrowed asset.
    pub borrow_token: AccountId,
    /// Principal still owed; falls on partial repayment, not on accrual.
    pub borrow_amount: Balance,
    /// Collateral value, in borrow-asset units at origination, at or below
    /// which the position becomes liquidatable.
    pub liquidation_price: Balance,
    /// When principal or collateral were last adjusted; the anchor from
    /// which interest accrues.
    pub timestamp: Timestamp,
    /// Terminal flag: set by liquidation, cleared only by deleting the loan.
    pub already_liquidated: bool,
}

/// The registry of loans, keyed by id.
pub struct LoanContract {
    /// The only account allowed to mutate the registry.
    pub manager_account: AccountId,
    /// The most recently allocated id; 0 before the first loan.
    pub last_loan_id: LoanId,
    /// The open records. An id above `last_loan_id` has never been allocated.
    pub loans: HashMap<LoanId, LoanInfo>,
}

impl LoanContract {
    /// Ids are allocated in order: every record sits at or below the counter,
    /// and no record sits at id 0.
    pub open spec fn wf(self) -> bool {
        forall|id: LoanId| #[trigger] self.loans@.contains_key(id)
            ==> 1 <= id <= self.last_loan_id
    }

    /// Whether a record exists under `id`.
    pub open spec fn spec_has(self, id: LoanId) -> bool {
        self.loans@.contains_key(id)
    }

    /// The record under `id`.
    pub open spec fn spec_loan(self, id: LoanId) -> LoanInfo {
        self.loans@[id]
    }

    /// An empty registry that only `manager_account` may mutate.
    pub fn new(manager_account: AccountId) -> (r: LoanContract)
        ensures
            r.wf(),
            r.manager_account == manager_account,
            r.last_loan_id == 0,
            forall|id: LoanId| !(#[trigger] r.spec_has(id)),
    {
        LoanContract {
            manager_account,
            last_loan_id: 0,
            loans: HashMap::new(),
        }
    }

    /// Allocates the next id, stores `loan_info` under it and hands the
    /// ownership token to `loan_info.borrower` (recorded in the stored
    /// `borrower` field). Returns the new id.
    pub fn create_loan(&mut self, caller: AccountId, loan_info: LoanInfo) -> (r: Result<LoanId, LoanError>)
        requires
            old(self).wf(),
        ensures
            final(self).wf(),
            r == (if caller != old(self).manager_account {
                Err::<LoanId, LoanError>(LoanError::NotAuthorized)
            } else if old(self).last_loan_id == LoanId::MAX {
                Err::<LoanId, LoanError>(LoanError::LoanIdExhausted)
            } else {
                Ok::<LoanId, LoanError>((old(self).last_loan_id + 1) as LoanId)
            }),
            r is Err ==> *final(self) == *old(self),
            r is Ok ==> {
                &&& final(self).manager_account == old(self).manager_account
                &&& final(self).last_loan_id == old(self).last_loan_id + 1
                &&& final(self).loans@ == old(self).loans@.insert((old(self).last_loan_id + 1) as LoanId, loan_info)
            },
    {
        if caller != self.manager_account {
            return Err(LoanError::NotAuthorized);
        }
        if self.last_loan_id == LoanId::MAX {
            return Err(LoanError::LoanIdExhausted);
        }
        let id = self.last_loan_id + 1;
        if self.loans.contains_key(&id) {
            // Unreachable while the registry is well formed: ids above the
            // counter have never been allocated.
            return Err(LoanError::LoanAlreadyExists);
        }
        self.loans.insert(id, loan_info);
        self.last_loan_id = id;
        Ok(id)
    }

    /// Removes the record under `id` and burns its ownership token from
    /// `owner`; fails if `owner` does not hold the token.
    pub fn delete_loan(&mut self, caller: AccountId, owner: AccountId, id: LoanId) -> (r: Result<(), LoanError>)
        requires
            old(self).wf(),
        ensures
            final(self).wf(),
            r == (if caller != old(self).manager_account {
                Err::<(), LoanError>(LoanError::NotAuthorized)
            } else if !old(self).spec_has(id) {
                Err::<(), LoanError>(LoanError::LoanNotFound)
            } else if old(self).spec_loan(id).borrower != owner {
                Err::<(), LoanError>(LoanError::NotTheLoanOwner)
            } else {
                Ok::<(), LoanError>(())
            }),
            r is Err ==> *final(self) == *old(self),
            r is Ok ==> {
                &&& final(self).manager_account == old(self).manager_account
                &&& final(self).last_loan_id == old(self).last_loan_id
                &&& final(self).loans@ == old(self).loans@.remove(id)
            },
    {
        if caller != self.manager_account {
            return Err(LoanError::NotAuthorized);
        }
        let info = match self.loans.get(&id) {
            Some(info) => *info,
            None => {
                return Err(LoanError::LoanNotFound);
            },
        };
        if info.borrower != owner {
            return Err(LoanError::NotTheLoanOwner);
        }
        self.loans.remove(&id);
        Ok(())
    }

    /// Overwrites the three fields that repayment adjusts, leaving the
    /// borrower, the two token ids and the liquidation data untouched.
    pub fn update_loan(&mut self, caller: AccountId, id: LoanId, borrow_amount: Balance, collateral_amount: Balance, timestamp: Timestamp) -> (r: Result<(), LoanError>)
        requires
            old(self).wf(),
        ensures
            final(self).wf(),
            r == (if caller != old(self).manager_account {
                Err::<(), LoanError>(LoanError::NotAuthorized)
            } else if !old(self).spec_has(id) {
                Err::<(), LoanError>(LoanError::LoanNotFound)
            } else {
                Ok::<(), LoanError>(())
            }),
            r is Err ==> *final(self) == *old(self),
            r is Ok ==> {
                &&& final(self).manager_account == old(self).manager_account
                &&& final(self).last_loan_id == old(self).last_loan_id
                &&& final(self).loans@ == old(self).loans@.insert(id, LoanInfo {
                    borrow_amount,
                    collateral_amount,
                    timestamp,
                    ..old(self).spec_loan(id)
                })
            },
    {
        if caller != self.manager_account {
            return Err(LoanError::NotAuthorized);
        }
        let info = match self.loans.get(&id) {
            Some(info) => *info,
            None => {
                return Err(LoanError::LoanNotFound);
            },
        };
        let updated = LoanInfo {
            borrow_amount,
            collateral_amount,
            timestamp,
            ..info
        };
        self.loans.insert(id, updated);
        Ok(())
    }

    /// Marks the record under `id` liquidated; the record itself stays until
    /// the borrower cleans it up through repayment.
    pub fn liquidate_loan(&mut self, caller: AccountId, id: LoanId) -> (r: Result<(), LoanError>)
        requires
            old(self).wf(),
        ensures
            final(self).wf(),
            r == (if caller != old(self).manager_account {
                Err::<(), LoanError>(LoanError::NotAuthorized)
            } else if !old(self).spec_has(id) {
                Err::<(), LoanError>(LoanError::LoanNotFound)
            } else {
                Ok::<(), LoanError>(())
            }),
            r is Err ==> *final(self) == *old(self),
            r is Ok ==> {
                &&& final(self).manager_account == old(self).manager_account
                &&& final(self).last_loan_id == old(self).last_loan_id
                &&& final(self).loans@ == old(self).loans@.insert(id, LoanInfo {
                    already_liquidated: true,
                    ..old(self).spec_loan(id)
                })
            },
    {
        if caller != self.manager_account {
            return Err(LoanError::NotAuthorized);
        }
        let info = match self.loans.get(&id) {
            Some(info) => *info,
            None => {
                return Err(LoanError::LoanNotFound);
            },
        };
        let updated = LoanInfo {
            already_liquidated: true,
            ..info
        };
        self.loans.insert(id, updated);
        Ok(())
    }

    /// Returns a copy of the record under `id`. Reads are not gated, mutate
    /// nothing, and so return the same record however often they are made.
    pub fn get_loan_info(&self, id: LoanId) -> (r: Result<LoanInfo, LoanError>)
        ensures
            r == (if !self.spec_has(id) {
                Err::<LoanInfo, LoanError>(LoanError::LoanNotFound)
            } else {
                Ok::<LoanInfo, LoanError>(self.spec_loan(id))
            }),
    {
        match self.loans.get(&id) {
            Some(info) => Ok(*info),
            None => Err(LoanError::LoanNotFound),
        }
    }
}

} // verus!
