//! The pool manager: the protocol's orchestrator and only entry point.
//!
//! It keeps one pool per lendable asset (a claim token, a reserve sub-account
//! and the asset's ledger linkage), a set of collateral-accepted assets, and
//! directional conversion rates. Deposits mint claim tokens in proportion to
//! the pool's pre-transfer holdings, withdrawals burn them against the pool's
//! on-hand balance, and loans move collateral in, principal out, and claim
//! tokens to the pool's own account. State is updated in
//! checks-effects-interactions order: every precondition is established
//! before the first balance moves, so a failed operation changes nothing.

use vstd::prelude::*;
use std::collections::HashMap;
use crate::types::{AccountId, Balance, Timestamp, LoanId};
use crate::types::{YEAR, APY, BASIS_POINTS, BORROW_PERCENT, LIQUIDATION_PERCENT, REWARD_NUMERATOR, REWARD_DENOMINATOR};
use crate::errors::{PoolManagerError, LoanError};
use crate::ledger::{TokenBank, pack2};
use crate::loan::{LoanContract, LoanInfo};

verus! {

/// The liquidation threshold fixed at origination: three quarters of the
/// collateral's value, rounded down.
pub open spec fn liq_price_of(price: int) -> int {
    price * LIQUIDATION_PERCENT / 100
}

/// The principal a borrower receives: seven tenths of the collateral's
/// value, rounded down.
pub open spec fn borrow_amt_of(price: int) -> int {
    price * BORROW_PERCENT / 100
}

/// Simple interest accrued over `elapsed` seconds, in basis points: the
/// yearly rate scaled by the elapsed share of a year, rounded down.
pub open spec fn interest_of(elapsed: int) -> int {
    APY * elapsed / (YEAR as int)
}

/// What a borrower owes on a debt of `borrow_amount` after `elapsed`
/// seconds: principal plus simple interest, rounded down, plus one unit
/// rounded in the protocol's favor.
pub open spec fn owed_of(borrow_amount: Balance, elapsed: int) -> int {
    borrow_amount * (BASIS_POINTS as int + interest_of(elapsed)) / (BASIS_POINTS as int) + 1
}

/// The liquidator's reward: one percent of the remaining collateral,
/// rounded down.
pub open spec fn reward_of(collateral_amount: Balance) -> int {
    collateral_amount * REWARD_NUMERATOR / (REWARD_DENOMINATOR as int)
}

/// The pool manager's own state; balances live in the [`TokenBank`] it is
/// handed on every call, loans in its [`LoanContract`].
pub struct PoolManagerContract {
    /// The only account allowed to run the admin operations.
    pub admin: AccountId,
    /// While set, deposits and borrowing are gated off.
    pub paused: bool,
    /// The manager's own account: it holds every pool's funds and owns
    /// every claim token and the loan registry.
    pub contract_account: AccountId,
    /// The registry of open loans.
    pub loan: LoanContract,
    /// Per lendable asset, the reserve sub-account holding what is lent out.
    pub assets_lended: HashMap<AccountId, AccountId>,
    /// Per lendable asset, its claim token.
    pub asset_btoken: HashMap<AccountId, AccountId>,
    /// Per claim token, its asset: the inverse of `asset_btoken`.
    pub btoken_asset: HashMap<AccountId, AccountId>,
    /// Which assets may be pledged as collateral, independently of
    /// whether they are lendable.
    pub collateral_accepted: HashMap<AccountId, bool>,
    /// Directional conversion rates, keyed by packed (from, to) pair:
    /// one unit of `from` is worth `rate` units of `to`. Unset means zero.
    pub conversion_rates: HashMap<u128, Balance>,
}

impl PoolManagerContract {
    /// Whether `asset` is lendable: it has a pool and a claim token.
    pub open spec fn spec_lendable(self, asset: AccountId) -> bool {
        self.asset_btoken@.contains_key(asset)
    }

    /// The claim token of `asset`'s pool.
    pub open spec fn spec_btoken(self, asset: AccountId) -> AccountId {
        self.asset_btoken@[asset]
    }

    /// Whether `btoken` is the claim token of some pool.
    pub open spec fn spec_btoken_known(self, btoken: AccountId) -> bool {
        self.btoken_asset@.contains_key(btoken)
    }

    /// The asset whose pool `btoken` belongs to.
    pub open spec fn spec_asset_of(self, btoken: AccountId) -> AccountId {
        self.btoken_asset@[btoken]
    }

    /// The reserve sub-account of `asset`'s pool.
    pub open spec fn spec_reserve(self, asset: AccountId) -> AccountId {
        self.assets_lended@[asset]
    }

    /// Whether `asset` may be pledged as collateral.
    pub open spec fn spec_collateral_ok(self, asset: AccountId) -> bool {
        self.collateral_accepted@.contains_key(asset) && self.collateral_accepted@[asset]
    }

    /// The conversion rate from one unit of `from` into units of `to`;
    /// zero while unset, meaning "unknown pair".
    pub open spec fn spec_rate(self, from: AccountId, to: AccountId) -> Balance {
        if self.conversion_rates@.contains_key(pack2(from, to)) {
            self.conversion_rates@[pack2(from, to)]
        } else {
            0
        }
    }

    /// The value of `amount` units of `from` expressed in units of `to`.
    pub open spec fn spec_price(self, from: AccountId, to: AccountId, amount: Balance) -> int {
        self.spec_rate(from, to) * amount
    }

    /// Everything the pool holds of `asset`: its on-contract balance plus
    /// what sits in the pool's reserve sub-account.
    pub open spec fn spec_total_asset(self, bank: TokenBank, asset: AccountId) -> int {
        bank.spec_bal(asset, self.contract_account)
            + bank.spec_bal(asset, self.spec_reserve(asset))
    }

    /// What one pool promises while the manager is well formed.
    pub open spec fn pool_ok(self, bank: TokenBank, asset: AccountId) -> bool {
        let btoken = self.asset_btoken@[asset];
        let reserve = self.assets_lended@[asset];
        &&& self.assets_lended@.contains_key(asset)
        &&& bank.spec_has(asset)
        &&& bank.spec_has(btoken)
        &&& bank.spec_owner(btoken) == self.contract_account
        &&& btoken != asset
        &&& self.btoken_asset@.contains_key(btoken)
        &&& self.btoken_asset@[btoken] == asset
        &&& reserve != self.contract_account
        &&& reserve < bank.next_account
    }

    /// What one loan record promises while the manager is well formed.
    pub open spec fn loan_ok(self, bank: TokenBank, li: LoanInfo) -> bool {
        &&& bank.spec_has(li.borrow_token)
        &&& bank.spec_has(li.collateral_token)
    }

    /// The manager's well-formedness over the bank it works against:
    /// constructors establish it and every operation preserves it.
    pub open spec fn wf(self, bank: TokenBank) -> bool {
        &&& bank.wf()
        &&& self.loan.wf()
        &&& self.loan.manager_account == self.contract_account
        &&& self.contract_account < bank.next_account
        &&& forall|a: AccountId| #[trigger] self.assets_lended@.contains_key(a)
            ==> self.asset_btoken@.contains_key(a)
        &&& forall|a: AccountId| #[trigger] self.asset_btoken@.contains_key(a)
            ==> self.pool_ok(bank, a)
        &&& forall|b: AccountId| #[trigger] self.btoken_asset@.contains_key(b)
            ==> self.asset_btoken@.contains_key(self.btoken_asset@[b])
                && self.asset_btoken@[self.btoken_asset@[b]] == b
        &&& forall|c: AccountId| #[trigger] self.collateral_accepted@.contains_key(c)
            ==> (self.collateral_accepted@[c] ==> bank.spec_has(c))
        &&& forall|id: LoanId| #[trigger] self.loan.loans@.contains_key(id)
            ==> self.loan_ok(bank, self.loan.loans@[id])
    }

    /// Deploys a manager: the caller becomes admin, the manager draws its
    /// own account from the bank's allocator and wires an empty loan
    /// registry to it.
    pub fn new(bank: &mut TokenBank, caller: AccountId) -> (r: PoolManagerContract)
        requires
            old(bank).wf(),
            old(bank).next_account < AccountId::MAX,
        ensures
            r.wf(*final(bank)),
            r.admin == caller,
            !r.paused,
            r.contract_account == old(bank).next_account,
            final(bank).tokens@ == old(bank).tokens@,
            final(bank).next_account == old(bank).next_account + 1,
            r.loan.last_loan_id == 0,
            forall|id: LoanId| !(#[trigger] r.loan.spec_has(id)),
            forall|a: AccountId| !(#[trigger] r.spec_lendable(a)),
            forall|b: AccountId| !(#[trigger] r.spec_btoken_known(b)),
            forall|c: AccountId| !(#[trigger] r.spec_collateral_ok(c)),
            forall|f: AccountId, t: AccountId| #[trigger] r.spec_rate(f, t) == 0,
    {
        let contract_account = bank.fresh_account();
        let pm = PoolManagerContract {
            admin: caller,
            paused: false,
            contract_account,
            loan: LoanContract::new(contract_account),
            assets_lended: HashMap::new(),
            asset_btoken: HashMap::new(),
            btoken_asset: HashMap::new(),
            collateral_accepted: HashMap::new(),
            conversion_rates: HashMap::new(),
        };
        pm
    }

    /// Pauses or resumes the deposit and borrow entry points.
    pub fn set_paused(&mut self, caller: AccountId, paused: bool) -> (r: Result<(), PoolManagerError>)
        ensures
            r == (if caller != old(self).admin {
                Err::<(), PoolManagerError>(PoolManagerError::AccessControlError)
            } else {
                Ok::<(), PoolManagerError>(())
            }),
            r is Err ==> *final(self) == *old(self),
            r is Ok ==> *final(self) == (PoolManagerContract { paused, ..*old(self) }),
    {
        if caller != self.admin {
            return Err(PoolManagerError::AccessControlError);
        }
        self.paused = paused;
        Ok(())
    }

    /// Whether `asset_address` is lendable.
    pub fn get_asset_acceptance(&self, asset_address: AccountId) -> (r: bool)
        ensures
            r == self.spec_lendable(asset_address),
    {
        self.asset_btoken.contains_key(&asset_address)
    }

    /// Whether `asset_address` may be pledged as collateral.
    pub fn get_collateral_acceptance(&self, asset_address: AccountId) -> (r: bool)
        ensures
            r == self.spec_collateral_ok(asset_address),
    {
        match self.collateral_accepted.get(&asset_address) {
            Some(b) => *b,
            None => false,
        }
    }

    /// The claim token paired with `asset_address`, if the asset is lendable.
    pub fn get_btoken_from_asset(&self, asset_address: AccountId) -> (r: Result<AccountId, PoolManagerError>)
        ensures
            r == (if !self.spec_lendable(asset_address) {
                Err::<AccountId, PoolManagerError>(PoolManagerError::AssetNotFound)
            } else {
                Ok::<AccountId, PoolManagerError>(self.spec_btoken(asset_address))
            }),
    {
        match self.asset_btoken.get(&asset_address) {
            Some(b) => Ok(*b),
            None => Err(PoolManagerError::AssetNotFound),
        }
    }

    /// The asset whose pool `btoken_address` belongs to, if any.
    pub fn get_asset_from_btoken(&self, btoken_address: AccountId) -> (r: Result<AccountId, PoolManagerError>)
        ensures
            r == (if !self.spec_btoken_known(btoken_address) {
                Err::<AccountId, PoolManagerError>(PoolManagerError::AssetNotFound)
            } else {
                Ok::<AccountId, PoolManagerError>(self.spec_asset_of(btoken_address))
            }),
    {
        match self.btoken_asset.get(&btoken_address) {
            Some(a) => Ok(*a),
            None => Err(PoolManagerError::AssetNotFound),
        }
    }

    /// The value of `amount_from` units of `asset_from` in units of
    /// `asset_to`, at the stored rate; zero while no rate is set.
    pub fn get_conversion_rate(&self, asset_from: AccountId, asset_to: AccountId, amount_from: Balance) -> (r: Balance)
        requires
            self.spec_price(asset_from, asset_to, amount_from) <= Balance::MAX,
        ensures
            r == self.spec_price(asset_from, asset_to, amount_from),
    {
        let key = crate::ledger::pack2_exec(asset_from, asset_to);
        let rate = match self.conversion_rates.get(&key) {
            Some(v) => *v,
            None => 0,
        };
        rate * amount_from
    }

    /// Sets the rate at which one unit of `asset_from` is valued in
    /// `asset_to`.
    pub fn set_conversion_rate(&mut self, caller: AccountId, asset_from: AccountId, asset_to: AccountId, exchange_rate: Balance) -> (r: Result<(), PoolManagerError>)
        ensures
            r == (if caller != old(self).admin {
                Err::<(), PoolManagerError>(PoolManagerError::AccessControlError)
            } else {
                Ok::<(), PoolManagerError>(())
            }),
            r is Err ==> *final(self) == *old(self),
            r is Ok ==> {
                &&& final(self).admin == old(self).admin
                &&& final(self).paused == old(self).paused
                &&& final(self).contract_account == old(self).contract_account
                &&& final(self).loan == old(self).loan
                &&& final(self).assets_lended@ == old(self).assets_lended@
                &&& final(self).asset_btoken@ == old(self).asset_btoken@
                &&& final(self).btoken_asset@ == old(self).btoken_asset@
                &&& final(self).collateral_accepted@ == old(self).collateral_accepted@
                &&& final(self).spec_rate(asset_from, asset_to) == exchange_rate
                &&& forall|k: u128| k != pack2(asset_from, asset_to)
                    ==> #[trigger] final(self).conversion_rates@.contains_key(k) == old(self).conversion_rates@.contains_key(k)
                        && (old(self).conversion_rates@.contains_key(k) ==> final(self).conversion_rates@[k] == old(self).conversion_rates@[k])
            },
    {
        if caller != self.admin {
            return Err(PoolManagerError::AccessControlError);
        }
        let key = crate::ledger::pack2_exec(asset_from, asset_to);
        self.conversion_rates.insert(key, exchange_rate);
        Ok(())
    }

    /// Everything the pool holds of `asset_address`: on-contract balance
    /// plus the balance in the pool's reserve sub-account.
    pub fn get_total_asset(&self, bank: &TokenBank, asset_address: AccountId) -> (r: Result<Balance, PoolManagerError>)
        requires
            self.assets_lended@.contains_key(asset_address)
                ==> self.spec_total_asset(*bank, asset_address) <= Balance::MAX,
        ensures
            r == (if !self.assets_lended@.contains_key(asset_address) {
                Err::<Balance, PoolManagerError>(PoolManagerError::AssetNotFound)
            } else {
                Ok::<Balance, PoolManagerError>(self.spec_total_asset(*bank, asset_address) as Balance)
            }),
    {
        let reserve = match self.assets_lended.get(&asset_address) {
            Some(rsv) => *rsv,
            None => {
                return Err(PoolManagerError::AssetNotFound);
            },
        };
        let available = bank.balance_of(asset_address, self.contract_account);
        let unavailable = bank.balance_of(asset_address, reserve);
        Ok(available + unavailable)
    }

    /// The total claim-token supply of `asset_address`'s pool.
    pub fn get_total_btoken(&self, bank: &TokenBank, asset_address: AccountId) -> (r: Result<Balance, PoolManagerError>)
        ensures
            r == (if !self.spec_lendable(asset_address) {
                Err::<Balance, PoolManagerError>(PoolManagerError::AssetNotFound)
            } else {
                Ok::<Balance, PoolManagerError>(bank.spec_supply(self.spec_btoken(asset_address)))
            }),
    {
        let btoken = match self.asset_btoken.get(&asset_address) {
            Some(b) => *b,
            None => {
                return Err(PoolManagerError::AssetNotFound);
            },
        };
        Ok(bank.total_supply(btoken))
    }
    /// What allowing `asset_address` for lending returns: admin-gated,
    /// refused while a pool exists, and the asset must be a real token.
    pub open spec fn set_asset_allowance_outcome(self, bank: TokenBank, caller: AccountId, asset_address: AccountId) -> Result<(), PoolManagerError> {
        if caller != self.admin {
            Err(PoolManagerError::AccessControlError)
        } else if self.spec_lendable(asset_address) {
            Err(PoolManagerError::AssetAlreadySupported)
        } else if !bank.spec_has(asset_address) {
            Err(PoolManagerError::AssetNotFound)
        } else {
            Ok(())
        }
    }

    /// Makes `asset_address` lendable: deploys a fresh claim token owned by
    /// the manager, draws a fresh reserve sub-account, and links all three.
    pub fn set_asset_allowance(&mut self, bank: &mut TokenBank, caller: AccountId, asset_address: AccountId) -> (r: Result<(), PoolManagerError>)
        requires
            old(self).wf(*old(bank)),
            old(self).set_asset_allowance_outcome(*old(bank), caller, asset_address) is Ok
                ==> old(bank).next_account + 2 <= AccountId::MAX,
        ensures
            final(self).wf(*final(bank)),
            r == old(self).set_asset_allowance_outcome(*old(bank), caller, asset_address),
            r is Err ==> *final(self) == *old(self) && *final(bank) == *old(bank),
            r is Ok ==> {
                let btoken = old(bank).next_account;
                let reserve = (old(bank).next_account + 1) as AccountId;
                &&& final(self).admin == old(self).admin
                &&& final(self).paused == old(self).paused
                &&& final(self).contract_account == old(self).contract_account
                &&& final(self).loan == old(self).loan
                &&& final(self).collateral_accepted@ == old(self).collateral_accepted@
                &&& final(self).conversion_rates@ == old(self).conversion_rates@
                &&& final(self).assets_lended@ == old(self).assets_lended@.insert(asset_address, reserve)
                &&& final(self).asset_btoken@ == old(self).asset_btoken@.insert(asset_address, btoken)
                &&& final(self).btoken_asset@ == old(self).btoken_asset@.insert(btoken, asset_address)
                &&& final(bank).next_account == old(bank).next_account + 2
                &&& final(bank).spec_has(btoken)
                &&& final(bank).spec_owner(btoken) == old(self).contract_account
                &&& final(bank).spec_supply(btoken) == 0
                &&& forall|a: AccountId| final(bank).spec_bal(btoken, a) == 0
                &&& forall|t: AccountId| t != btoken ==> #[trigger] final(bank).spec_has(t) == old(bank).spec_has(t)
                &&& forall|t: AccountId| t != btoken ==> #[trigger] final(bank).spec_owner(t) == old(bank).spec_owner(t)
                &&& forall|t: AccountId| t != btoken ==> #[trigger] final(bank).spec_supply(t) == old(bank).spec_supply(t)
                &&& forall|t: AccountId, a: AccountId| t != btoken ==> #[trigger] final(bank).spec_bal(t, a) == old(bank).spec_bal(t, a)
                &&& forall|t: AccountId, k: u128| t != btoken ==> #[trigger] final(bank).spec_alw_key(t, k) == old(bank).spec_alw_key(t, k)
            },
    {
        if caller != self.admin {
            return Err(PoolManagerError::AccessControlError);
        }
        if self.get_asset_acceptance(asset_address) {
            return Err(PoolManagerError::AssetAlreadySupported);
        }
        if !bank.has_token(asset_address) {
            return Err(PoolManagerError::AssetNotFound);
        }
        let btoken_address = bank.create_token(self.contract_account);
        let ghost bank_mid = *bank;
        let reserves_address = bank.fresh_account();
        self.assets_lended.insert(asset_address, reserves_address);
        self.asset_btoken.insert(asset_address, btoken_address);
        self.btoken_asset.insert(btoken_address, asset_address);
        proof {
            let pm0 = *old(self);
            let b0 = *old(bank);
            assert(b0.spec_has(asset_address));
            assert(asset_address < b0.next_account);
            assert(bank.tokens@ == bank_mid.tokens@);
            assert forall|t: AccountId| #![trigger bank.spec_has(t)]
                bank.spec_has(t) == bank_mid.spec_has(t)
                    && bank.spec_owner(t) == bank_mid.spec_owner(t)
                    && bank.spec_supply(t) == bank_mid.spec_supply(t) by {
            }
            assert forall|t: AccountId, a: AccountId| #![trigger bank.spec_bal(t, a)]
                bank.spec_bal(t, a) == bank_mid.spec_bal(t, a) by {
            }
            assert forall|t: AccountId, k: u128| #![trigger bank.spec_alw_key(t, k)]
                bank.spec_alw_key(t, k) == bank_mid.spec_alw_key(t, k) by {
            }
            assert forall|a: AccountId| #[trigger] self.asset_btoken@.contains_key(a)
                implies self.pool_ok(*bank, a) by {
                if a == asset_address {
                    assert(bank_mid.spec_has(asset_address));
                    assert(bank_mid.spec_has(btoken_address));
                    assert(bank_mid.spec_owner(btoken_address) == self.contract_account);
                } else {
                    assert(pm0.pool_ok(b0, a));
                    // The old pool's claim token already existed, so it is
                    // below the old allocator mark and distinct from both
                    // fresh ids.
                    assert(b0.spec_has(pm0.asset_btoken@[a]));
                    assert(pm0.asset_btoken@[a] < b0.next_account);
                }
            }
            assert forall|b: AccountId| #[trigger] self.btoken_asset@.contains_key(b)
                implies self.asset_btoken@.contains_key(self.btoken_asset@[b])
                    && self.asset_btoken@[self.btoken_asset@[b]] == b by {
                if b != btoken_address {
                    assert(pm0.btoken_asset@.contains_key(b));
                    let a = pm0.btoken_asset@[b];
                    assert(pm0.pool_ok(b0, a));
                    assert(a != asset_address);
                }
            }
            assert forall|c: AccountId| #[trigger] self.collateral_accepted@.contains_key(c)
                && self.collateral_accepted@[c] implies bank.spec_has(c) by {
                assert(b0.spec_has(c));
            }
            assert forall|id: LoanId| #[trigger] self.loan.loans@.contains_key(id)
                implies self.loan_ok(*bank, self.loan.loans@[id]) by {
                assert(pm0.loan_ok(b0, pm0.loan.loans@[id]));
            }
            assert(self.wf(*bank));
        }
        Ok(())
    }

    /// What accepting `asset_address` as collateral returns: admin-gated,
    /// refused while already accepted, and the asset must be a real token.
    pub open spec fn set_collateral_allowance_outcome(self, bank: TokenBank, caller: AccountId, asset_address: AccountId) -> Result<(), PoolManagerError> {
        if caller != self.admin {
            Err(PoolManagerError::AccessControlError)
        } else if self.spec_collateral_ok(asset_address) {
            Err(PoolManagerError::CollateralAlreadySupported)
        } else if !bank.spec_has(asset_address) {
            Err(PoolManagerError::AssetNotFound)
        } else {
            Ok(())
        }
    }

    /// Accepts `asset_address` as collateral for new loans.
    pub fn set_collateral_allowance(&mut self, bank: &TokenBank, caller: AccountId, asset_address: AccountId) -> (r: Result<(), PoolManagerError>)
        requires
            old(self).wf(*bank),
        ensures
            final(self).wf(*bank),
            r == old(self).set_collateral_allowance_outcome(*bank, caller, asset_address),
            r is Err ==> *final(self) == *old(self),
            r is Ok ==> {
                &&& *final(self) == (PoolManagerContract {
                    collateral_accepted: final(self).collateral_accepted,
                    ..*old(self)
                })
                &&& final(self).collateral_accepted@ == old(self).collateral_accepted@.insert(asset_address, true)
            },
    {
        if caller != self.admin {
            return Err(PoolManagerError::AccessControlError);
        }
        if self.get_collateral_acceptance(asset_address) {
            return Err(PoolManagerError::CollateralAlreadySupported);
        }
        if !bank.has_token(asset_address) {
            return Err(PoolManagerError::AssetNotFound);
        }
        self.collateral_accepted.insert(asset_address, true);
        Ok(())
    }

    /// What retiring `asset_address`'s pool returns: admin-gated, the pool
    /// must exist, and both its on-contract balance and its claim-token
    /// supply must be exactly zero, so no depositor claim can be stranded.
    pub open spec fn set_asset_disallowance_outcome(self, bank: TokenBank, caller: AccountId, asset_address: AccountId) -> Result<(), PoolManagerError> {
        if caller != self.admin {
            Err(PoolManagerError::AccessControlError)
        } else if !self.spec_lendable(asset_address) {
            Err(PoolManagerError::AssetNotFound)
        } else if bank.spec_bal(asset_address, self.contract_account) > 0
            || bank.spec_supply(self.spec_btoken(asset_address)) > 0 {
            Err(PoolManagerError::PoolIsNotEmpty)
        } else {
            Ok(())
        }
    }

    /// Retires `asset_address`'s pool, unlinking its claim token and
    /// reserve sub-account; only an empty pool may be retired.
    pub fn set_asset_disallowance(&mut self, bank: &TokenBank, caller: AccountId, asset_address: AccountId) -> (r: Result<(), PoolManagerError>)
        requires
            old(self).wf(*bank),
        ensures
            final(self).wf(*bank),
            r == old(self).set_asset_disallowance_outcome(*bank, caller, asset_address),
            r is Err ==> *final(self) == *old(self),
            r is Ok ==> {
                &&& final(self).admin == old(self).admin
                &&& final(self).paused == old(self).paused
                &&& final(self).contract_account == old(self).contract_account
                &&& final(self).loan == old(self).loan
                &&& final(self).collateral_accepted@ == old(self).collateral_accepted@
                &&& final(self).conversion_rates@ == old(self).conversion_rates@
                &&& final(self).assets_lended@ == old(self).assets_lended@.remove(asset_address)
                &&& final(self).asset_btoken@ == old(self).asset_btoken@.remove(asset_address)
                &&& final(self).btoken_asset@ == old(self).btoken_asset@.remove(old(self).spec_btoken(asset_address))
            },
    {
        if caller != self.admin {
            return Err(PoolManagerError::AccessControlError);
        }
        let btoken_address = match self.get_btoken_from_asset(asset_address) {
            Ok(b) => b,
            Err(e) => {
                return Err(e);
            },
        };
        let asset_balance = bank.balance_of(asset_address, self.contract_account);
        let btoken_supply = bank.total_supply(btoken_address);
        if asset_balance > 0 || btoken_supply > 0 {
            return Err(PoolManagerError::PoolIsNotEmpty);
        }
        self.assets_lended.remove(&asset_address);
        self.asset_btoken.remove(&asset_address);
        self.btoken_asset.remove(&btoken_address);
        proof {
            let pm0 = *old(self);
            assert(pm0.pool_ok(*bank, asset_address));
            assert forall|a: AccountId| #[trigger] self.asset_btoken@.contains_key(a)
                implies self.pool_ok(*bank, a) by {
                assert(pm0.pool_ok(*bank, a));
                // The retired claim token belonged to the retired pool
                // alone, so the surviving pools still map both ways.
                assert(pm0.asset_btoken@[a] != btoken_address);
            }
            assert forall|b: AccountId| #[trigger] self.btoken_asset@.contains_key(b)
                implies self.asset_btoken@.contains_key(self.btoken_asset@[b])
                    && self.asset_btoken@[self.btoken_asset@[b]] == b by {
                assert(pm0.btoken_asset@.contains_key(b));
                let a = pm0.btoken_asset@[b];
                assert(pm0.pool_ok(*bank, a));
            }
            assert(self.wf(*bank));
        }
        Ok(())
    }

    /// What `lend` returns, checked in order: the pause gate, then the
    /// caller's allowance to the pool, then the caller's balance, then that
    /// the asset has a pool.
    pub open spec fn lend_outcome(self, bank: TokenBank, caller: AccountId, asset_address: AccountId, amount: Balance) -> Result<(), PoolManagerError> {
        if self.paused {
            Err(PoolManagerError::PausableError)
        } else if bank.spec_alw(asset_address, caller, self.contract_account) < amount {
            Err(PoolManagerError::InsufficientAllowance)
        } else if bank.spec_bal(asset_address, caller) < amount {
            Err(PoolManagerError::InsufficientBalance)
        } else if !self.assets_lended@.contains_key(asset_address) {
            Err(PoolManagerError::AssetNotFound)
        } else {
            Ok(())
        }
    }

    /// How many claim tokens a deposit mints, from the pool's pre-transfer
    /// totals: the full amount into an empty pool, else the amount scaled
    /// by claim supply over pool holdings, rounded down.
    pub open spec fn lend_minted(self, bank: TokenBank, asset_address: AccountId, amount: Balance) -> int {
        let total_asset = self.spec_total_asset(bank, asset_address);
        let total_btoken = bank.spec_supply(self.spec_btoken(asset_address));
        if total_asset == 0 {
            amount as int
        } else {
            amount * total_btoken / total_asset
        }
    }

    /// The machine limits under which `lend` runs: whenever the operation
    /// would succeed, none of the touched quantities may exceed the largest
    /// representable balance.
    pub open spec fn lend_fits(self, bank: TokenBank, caller: AccountId, asset_address: AccountId, amount: Balance) -> bool {
        self.lend_outcome(bank, caller, asset_address, amount) is Ok ==> {
            let minted = self.lend_minted(bank, asset_address, amount);
            let btoken = self.spec_btoken(asset_address);
            &&& self.spec_total_asset(bank, asset_address) <= Balance::MAX
            &&& amount * bank.spec_supply(btoken) <= Balance::MAX
            &&& caller != self.contract_account
                ==> bank.spec_bal(asset_address, self.contract_account) + amount <= Balance::MAX
            &&& bank.spec_supply(btoken) + minted <= Balance::MAX
            &&& bank.spec_bal(btoken, caller) + minted <= Balance::MAX
        }
    }

    /// How a successful `lend` changes the bank: the deposit moves from the
    /// caller to the pool, the caller's allowance falls by the same amount,
    /// and freshly minted claim tokens land with the caller. Nothing else
    /// moves.
    pub open spec fn lend_updates(self, b0: TokenBank, b1: TokenBank, caller: AccountId, asset_address: AccountId, amount: Balance) -> bool {
        let minted = self.lend_minted(b0, asset_address, amount);
        let ct = self.contract_account;
        let btoken = self.spec_btoken(asset_address);
        &&& b1.next_account == b0.next_account
        &&& forall|t: AccountId| #[trigger] b1.spec_has(t) == b0.spec_has(t)
        &&& forall|t: AccountId| #[trigger] b1.spec_owner(t) == b0.spec_owner(t)
        &&& forall|t: AccountId| t != btoken ==> #[trigger] b1.spec_supply(t) == b0.spec_supply(t)
        &&& b1.spec_supply(btoken) == b0.spec_supply(btoken) + minted
        &&& forall|t: AccountId, k: u128| !(t == asset_address && k == pack2(caller, ct))
            ==> #[trigger] b1.spec_alw_key(t, k) == b0.spec_alw_key(t, k)
        &&& b1.spec_alw(asset_address, caller, ct) == b0.spec_alw(asset_address, caller, ct) - amount
        &&& forall|t: AccountId, a: AccountId| t != asset_address && t != btoken
            ==> #[trigger] b1.spec_bal(t, a) == b0.spec_bal(t, a)
        &&& caller != ct ==> b1.spec_bal(asset_address, caller) == b0.spec_bal(asset_address, caller) - amount
        &&& caller != ct ==> b1.spec_bal(asset_address, ct) == b0.spec_bal(asset_address, ct) + amount
        &&& forall|a: AccountId| a != caller && a != ct
            ==> #[trigger] b1.spec_bal(asset_address, a) == b0.spec_bal(asset_address, a)
        &&& caller == ct ==> forall|a: AccountId| #[trigger] b1.spec_bal(asset_address, a) == b0.spec_bal(asset_address, a)
        &&& b1.spec_bal(btoken, caller) == b0.spec_bal(btoken, caller) + minted
        &&& forall|a: AccountId| a != caller ==> #[trigger] b1.spec_bal(btoken, a) == b0.spec_bal(btoken, a)
    }

    /// Deposits `amount` of `asset_address` into its pool: the ratio is
    /// fixed from the pre-transfer totals, then the deposit is pulled in and
    /// the claim tokens are minted. A first deposit into an empty pool mints
    /// one claim token per unit deposited. No claim tokens are minted if any
    /// precondition fails.
    pub fn lend(&self, bank: &mut TokenBank, caller: AccountId, asset_address: AccountId, amount: Balance) -> (r: Result<(), PoolManagerError>)
        requires
            self.wf(*old(bank)),
            self.lend_fits(*old(bank), caller, asset_address, amount),
        ensures
            self.wf(*final(bank)),
            r == self.lend_outcome(*old(bank), caller, asset_address, amount),
            r is Err ==> *final(bank) == *old(bank),
            r is Ok ==> self.lend_updates(*old(bank), *final(bank), caller, asset_address, amount),
    {
        if self.paused {
            return Err(PoolManagerError::PausableError);
        }
        let contract = self.contract_account;
        let allowance = bank.allowance(asset_address, caller, contract);
        if allowance < amount {
            return Err(PoolManagerError::InsufficientAllowance);
        }
        let user_balance = bank.balance_of(asset_address, caller);
        if user_balance < amount {
            return Err(PoolManagerError::InsufficientBalance);
        }
        let total_asset = match self.get_total_asset(bank, asset_address) {
            Ok(v) => v,
            Err(e) => {
                return Err(e);
            },
        };
        let total_btoken = match self.get_total_btoken(bank, asset_address) {
            Ok(v) => v,
            Err(e) => {
                return Err(e);
            },
        };
        let btoken_address = match self.get_btoken_from_asset(asset_address) {
            Ok(b) => b,
            Err(e) => {
                return Err(e);
            },
        };
        // The share ratio is fixed from the totals read before the deposit
        // lands, so a self-deposit cannot skew it.
        let btoken_amount: Balance = if total_asset == 0 {
            amount
        } else {
            (amount * total_btoken) / total_asset
        };
        bank.do_set_allowance(asset_address, caller, contract, allowance - amount);
        bank.do_transfer(asset_address, caller, contract, amount);
        bank.do_mint(btoken_address, caller, btoken_amount);
        proof {
            lemma_wf_shape(*self, *old(bank), *bank);
        }
        Ok(())
    }

    /// What `withdraw` returns, checked in order: the claim token must
    /// belong to a pool; the owed payout may not exceed the pool's on-hand
    /// balance (funds currently lent out cannot be drained); and the caller
    /// must hold the claim tokens being redeemed.
    pub open spec fn withdraw_outcome(self, bank: TokenBank, caller: AccountId, btoken_address: AccountId, btoken_amount: Balance) -> Result<(), PoolManagerError> {
        if !self.spec_btoken_known(btoken_address) {
            Err(PoolManagerError::AssetNotFound)
        } else {
            let asset = self.spec_asset_of(btoken_address);
            let owed = self.withdraw_amount(bank, btoken_address, btoken_amount);
            if owed > bank.spec_bal(asset, self.contract_account) {
                Err(PoolManagerError::InsufficientPoolBalance)
            } else if bank.spec_bal(btoken_address, caller) < btoken_amount
                || bank.spec_supply(btoken_address) < btoken_amount {
                Err(PoolManagerError::InsufficientBalance)
            } else {
                Ok(())
            }
        }
    }

    /// What redeeming `btoken_amount` claim tokens pays out: the claim
    /// share of the pool's total holdings, lent-out funds included,
    /// rounded down.
    pub open spec fn withdraw_amount(self, bank: TokenBank, btoken_address: AccountId, btoken_amount: Balance) -> int {
        let asset = self.spec_asset_of(btoken_address);
        btoken_amount * self.spec_total_asset(bank, asset) / bank.spec_supply(btoken_address) as int
    }

    /// The machine limits under which `withdraw` runs; a pool with claim
    /// tokens in circulation always has a positive claim supply, which the
    /// payout is divided by.
    pub open spec fn withdraw_fits(self, bank: TokenBank, caller: AccountId, btoken_address: AccountId, btoken_amount: Balance) -> bool {
        &&& self.spec_btoken_known(btoken_address) ==> {
            let asset = self.spec_asset_of(btoken_address);
            &&& bank.spec_supply(btoken_address) > 0
            &&& self.spec_total_asset(bank, asset) <= Balance::MAX
            &&& btoken_amount * self.spec_total_asset(bank, asset) <= Balance::MAX
        }
        &&& self.withdraw_outcome(bank, caller, btoken_address, btoken_amount) is Ok
            && caller != self.contract_account
            ==> bank.spec_bal(self.spec_asset_of(btoken_address), caller)
                + self.withdraw_amount(bank, btoken_address, btoken_amount) <= Balance::MAX
    }

    /// How a successful `withdraw` changes the bank: the redeemed claim
    /// tokens are burned from the caller and the payout moves from the pool
    /// to the caller. Nothing else moves.
    pub open spec fn withdraw_updates(self, b0: TokenBank, b1: TokenBank, caller: AccountId, btoken_address: AccountId, btoken_amount: Balance) -> bool {
        let asset = self.spec_asset_of(btoken_address);
        let owed = self.withdraw_amount(b0, btoken_address, btoken_amount);
        let ct = self.contract_account;
        &&& b1.next_account == b0.next_account
        &&& forall|t: AccountId| #[trigger] b1.spec_has(t) == b0.spec_has(t)
        &&& forall|t: AccountId| #[trigger] b1.spec_owner(t) == b0.spec_owner(t)
        &&& forall|t: AccountId| t != btoken_address ==> #[trigger] b1.spec_supply(t) == b0.spec_supply(t)
        &&& b1.spec_supply(btoken_address) == b0.spec_supply(btoken_address) - btoken_amount
        &&& forall|t: AccountId, k: u128| #[trigger] b1.spec_alw_key(t, k) == b0.spec_alw_key(t, k)
        &&& forall|t: AccountId, a: AccountId| t != asset && t != btoken_address
            ==> #[trigger] b1.spec_bal(t, a) == b0.spec_bal(t, a)
        &&& b1.spec_bal(btoken_address, caller) == b0.spec_bal(btoken_address, caller) - btoken_amount
        &&& forall|a: AccountId| a != caller ==> #[trigger] b1.spec_bal(btoken_address, a) == b0.spec_bal(btoken_address, a)
        &&& caller != ct ==> b1.spec_bal(asset, ct) == b0.spec_bal(asset, ct) - owed
        &&& caller != ct ==> b1.spec_bal(asset, caller) == b0.spec_bal(asset, caller) + owed
        &&& forall|a: AccountId| a != caller && a != ct
            ==> #[trigger] b1.spec_bal(asset, a) == b0.spec_bal(asset, a)
        &&& caller == ct ==> forall|a: AccountId| #[trigger] b1.spec_bal(asset, a) == b0.spec_bal(asset, a)
    }

    /// Redeems `btoken_amount` claim tokens for the matching share of the
    /// pool's total holdings, burning the claims and paying the asset out
    /// of the pool's on-hand balance.
    pub fn withdraw(&self, bank: &mut TokenBank, caller: AccountId, btoken_address: AccountId, btoken_amount: Balance) -> (r: Result<(), PoolManagerError>)
        requires
            self.wf(*old(bank)),
            self.withdraw_fits(*old(bank), caller, btoken_address, btoken_amount),
        ensures
            self.wf(*final(bank)),
            r == self.withdraw_outcome(*old(bank), caller, btoken_address, btoken_amount),
            r is Err ==> *final(bank) == *old(bank),
            r is Ok ==> self.withdraw_updates(*old(bank), *final(bank), caller, btoken_address, btoken_amount),
    {
        let contract = self.contract_account;
        let withdraw_asset = match self.get_asset_from_btoken(btoken_address) {
            Ok(a) => a,
            Err(e) => {
                return Err(e);
            },
        };
        let total_asset = match self.get_total_asset(bank, withdraw_asset) {
            Ok(v) => v,
            Err(e) => {
                return Err(e);
            },
        };
        let total_supply = bank.total_supply(btoken_address);
        let withdraw_amount = btoken_amount * total_asset / total_supply;
        let withdrawable = bank.balance_of(withdraw_asset, contract);
        if withdraw_amount > withdrawable {
            return Err(PoolManagerError::InsufficientPoolBalance);
        }
        let caller_btokens = bank.balance_of(btoken_address, caller);
        if caller_btokens < btoken_amount || total_supply < btoken_amount {
            return Err(PoolManagerError::InsufficientBalance);
        }
        bank.do_burn(btoken_address, caller, btoken_amount);
        bank.do_transfer(withdraw_asset, contract, caller, withdraw_amount);
        proof {
            lemma_wf_shape(*self, *old(bank), *bank);
        }
        Ok(())
    }

    /// What `borrow` returns, checked in order: the pause gate, the
    /// caller's collateral allowance and balance, collateral acceptance,
    /// the borrowed asset's pool, the defensive ratio check, the pool's
    /// on-hand liquidity, and finally room for a fresh loan id.
    pub open spec fn borrow_outcome(self, bank: TokenBank, caller: AccountId, asset_address: AccountId, collateral_address: AccountId, amount: Balance) -> Result<(), PoolManagerError> {
        if self.paused {
            Err(PoolManagerError::PausableError)
        } else if bank.spec_alw(collateral_address, caller, self.contract_account) < amount {
            Err(PoolManagerError::InsufficientAllowance)
        } else if bank.spec_bal(collateral_address, caller) < amount {
            Err(PoolManagerError::InsufficientBalance)
        } else if !self.spec_collateral_ok(collateral_address) {
            Err(PoolManagerError::CollateralNotSupported)
        } else if !self.spec_lendable(asset_address) {
            Err(PoolManagerError::AssetNotFound)
        } else {
            let price = self.spec_price(collateral_address, asset_address, amount);
            if borrow_amt_of(price) >= liq_price_of(price) {
                Err(PoolManagerError::AmountNotSupported)
            } else if bank.spec_bal(asset_address, self.contract_account) < borrow_amt_of(price) {
                Err(PoolManagerError::InsufficientPoolBalance)
            } else if self.loan.last_loan_id == LoanId::MAX {
                Err(PoolManagerError::LoanError(LoanError::LoanIdExhausted))
            } else {
                Ok(())
            }
        }
    }

    /// Whether `borrow` gets as far as valuing the collateral: everything
    /// before the price computation passed.
    pub open spec fn borrow_reaches_price(self, bank: TokenBank, caller: AccountId, asset_address: AccountId, collateral_address: AccountId, amount: Balance) -> bool {
        &&& !self.paused
        &&& bank.spec_alw(collateral_address, caller, self.contract_account) >= amount
        &&& bank.spec_bal(collateral_address, caller) >= amount
        &&& self.spec_collateral_ok(collateral_address)
        &&& self.spec_lendable(asset_address)
    }

    /// The loan record a successful `borrow` stores.
    pub open spec fn borrow_loan_info(self, caller: AccountId, now: Timestamp, asset_address: AccountId, collateral_address: AccountId, amount: Balance) -> LoanInfo {
        let price = self.spec_price(collateral_address, asset_address, amount);
        LoanInfo {
            borrower: caller,
            collateral_token: collateral_address,
            collateral_amount: amount,
            borrow_token: asset_address,
            borrow_amount: borrow_amt_of(price) as Balance,
            liquidation_price: liq_price_of(price) as Balance,
            timestamp: now,
            already_liquidated: false,
        }
    }

    /// The machine limits under which `borrow` runs.
    pub open spec fn borrow_fits(self, bank: TokenBank, caller: AccountId, asset_address: AccountId, collateral_address: AccountId, amount: Balance) -> bool {
        let ct = self.contract_account;
        let price = self.spec_price(collateral_address, asset_address, amount);
        let ba = borrow_amt_of(price);
        let btoken = self.spec_btoken(asset_address);
        &&& self.borrow_reaches_price(bank, caller, asset_address, collateral_address, amount) ==> {
            &&& price <= Balance::MAX
            &&& price * LIQUIDATION_PERCENT <= Balance::MAX
        }
        &&& self.borrow_outcome(bank, caller, asset_address, collateral_address, amount) is Ok ==> {
            &&& caller != ct ==> bank.spec_bal(collateral_address, ct) + amount <= Balance::MAX
            &&& caller != ct ==> bank.spec_bal(asset_address, caller) + ba <= Balance::MAX
            &&& bank.spec_supply(btoken) + ba <= Balance::MAX
            &&& bank.spec_bal(btoken, ct)
                + (if collateral_address == btoken && caller != ct { amount as int } else { 0 })
                + ba <= Balance::MAX
        }
    }

    /// The net balance movement a successful `borrow` causes at one
    /// (token, account) point: collateral in from the caller, principal out
    /// to the caller, and freshly minted claim tokens to the pool account.
    pub open spec fn borrow_delta(self, caller: AccountId, asset_address: AccountId, collateral_address: AccountId, amount: Balance, ba: int, t: AccountId, a: AccountId) -> int {
        let ct = self.contract_account;
        let btoken = self.spec_btoken(asset_address);
        (if caller != ct && t == collateral_address {
            (if a == ct { amount as int } else { 0 }) - (if a == caller { amount as int } else { 0 })
        } else { 0 })
        + (if caller != ct && t == asset_address {
            (if a == caller { ba } else { 0 }) - (if a == ct { ba } else { 0 })
        } else { 0 })
        + (if t == btoken && a == ct { ba } else { 0 })
    }

    /// How a successful `borrow` changes the bank.
    pub open spec fn borrow_updates(self, b0: TokenBank, b1: TokenBank, caller: AccountId, asset_address: AccountId, collateral_address: AccountId, amount: Balance) -> bool {
        let ct = self.contract_account;
        let price = self.spec_price(collateral_address, asset_address, amount);
        let ba = borrow_amt_of(price);
        let btoken = self.spec_btoken(asset_address);
        &&& b1.next_account == b0.next_account
        &&& forall|t: AccountId| #[trigger] b1.spec_has(t) == b0.spec_has(t)
        &&& forall|t: AccountId| #[trigger] b1.spec_owner(t) == b0.spec_owner(t)
        &&& forall|t: AccountId| t != btoken ==> #[trigger] b1.spec_supply(t) == b0.spec_supply(t)
        &&& b1.spec_supply(btoken) == b0.spec_supply(btoken) + ba
        &&& forall|t: AccountId, k: u128| !(t == collateral_address && k == pack2(caller, ct))
            ==> #[trigger] b1.spec_alw_key(t, k) == b0.spec_alw_key(t, k)
        &&& b1.spec_alw(collateral_address, caller, ct) == b0.spec_alw(collateral_address, caller, ct) - amount
        &&& forall|t: AccountId, a: AccountId| #[trigger] b1.spec_bal(t, a)
            == b0.spec_bal(t, a) + self.borrow_delta(caller, asset_address, collateral_address, amount, ba, t, a)
    }

    /// Opens a loan: values the pledged collateral at the stored rate,
    /// fixes the liquidation threshold at three quarters and the principal
    /// at seven tenths of that value, pulls the collateral in, records the
    /// loan, pays the principal out and mints the principal's worth of
    /// claim tokens to the pool's own account.
    pub fn borrow(&mut self, bank: &mut TokenBank, caller: AccountId, now: Timestamp, asset_address: AccountId, collateral_address: AccountId, amount: Balance) -> (r: Result<(), PoolManagerError>)
        requires
            old(self).wf(*old(bank)),
            old(self).borrow_fits(*old(bank), caller, asset_address, collateral_address, amount),
        ensures
            final(self).wf(*final(bank)),
            r == old(self).borrow_outcome(*old(bank), caller, asset_address, collateral_address, amount),
            r is Err ==> *final(self) == *old(self) && *final(bank) == *old(bank),
            r is Ok ==> {
                &&& final(self).admin == old(self).admin
                &&& final(self).paused == old(self).paused
                &&& final(self).contract_account == old(self).contract_account
                &&& final(self).assets_lended@ == old(self).assets_lended@
                &&& final(self).asset_btoken@ == old(self).asset_btoken@
                &&& final(self).btoken_asset@ == old(self).btoken_asset@
                &&& final(self).collateral_accepted@ == old(self).collateral_accepted@
                &&& final(self).conversion_rates@ == old(self).conversion_rates@
                &&& final(self).loan.manager_account == old(self).loan.manager_account
                &&& final(self).loan.last_loan_id == old(self).loan.last_loan_id + 1
                &&& final(self).loan.loans@ == old(self).loan.loans@.insert(
                    (old(self).loan.last_loan_id + 1) as LoanId,
                    old(self).borrow_loan_info(caller, now, asset_address, collateral_address, amount),
                )
                &&& old(self).borrow_updates(*old(bank), *final(bank), caller, asset_address, collateral_address, amount)
            },
    {
        if self.paused {
            return Err(PoolManagerError::PausableError);
        }
        let contract = self.contract_account;
        let allowance = bank.allowance(collateral_address, caller, contract);
        if allowance < amount {
            return Err(PoolManagerError::InsufficientAllowance);
        }
        let user_balance = bank.balance_of(collateral_address, caller);
        if user_balance < amount {
            return Err(PoolManagerError::InsufficientBalance);
        }
        if !self.get_collateral_acceptance(collateral_address) {
            return Err(PoolManagerError::CollateralNotSupported);
        }
        let btoken_address = match self.get_btoken_from_asset(asset_address) {
            Ok(b) => b,
            Err(e) => {
                return Err(e);
            },
        };
        let price = self.get_conversion_rate(collateral_address, asset_address, amount);
        let liquidation_price = price * LIQUIDATION_PERCENT / 100;
        let borrow_amount = price * BORROW_PERCENT / 100;
        if borrow_amount >= liquidation_price {
            return Err(PoolManagerError::AmountNotSupported);
        }
        let asset_balance = bank.balance_of(asset_address, contract);
        if asset_balance < borrow_amount {
            return Err(PoolManagerError::InsufficientPoolBalance);
        }
        if self.loan.last_loan_id == LoanId::MAX {
            return Err(PoolManagerError::LoanError(LoanError::LoanIdExhausted));
        }
        bank.do_set_allowance(collateral_address, caller, contract, allowance - amount);
        bank.do_transfer(collateral_address, caller, contract, amount);
        let loan_info = LoanInfo {
            borrower: caller,
            collateral_token: collateral_address,
            collateral_amount: amount,
            borrow_token: asset_address,
            borrow_amount,
            liquidation_price,
            timestamp: now,
            already_liquidated: false,
        };
        match self.loan.create_loan(contract, loan_info) {
            Ok(_) => {},
            Err(_) => {
                // Unreachable: the registry is wired to this manager and
                // room for a fresh id was checked above.
                return Err(PoolManagerError::LoanError(LoanError::LoanIdExhausted));
            },
        }
        bank.do_transfer(asset_address, contract, caller, borrow_amount);
        bank.do_mint(btoken_address, contract, borrow_amount);
        proof {
            lemma_wf_shape(*old(self), *old(bank), *bank);
            assert forall|id: LoanId| #[trigger] self.loan.loans@.contains_key(id)
                implies self.loan_ok(*bank, self.loan.loans@[id]) by {
                if old(self).loan.loans@.contains_key(id) {
                    assert(old(self).loan_ok(*bank, old(self).loan.loans@[id]));
                } else {
                    assert(self.loan.loans@[id] == loan_info);
                    assert(old(self).pool_ok(*old(bank), asset_address));
                    assert(bank.spec_has(asset_address));
                    assert(bank.spec_has(collateral_address));
                }
            }
            assert(self.wf(*bank));
        }
        Ok(())
    }

    /// What `repay` returns. A loan already marked liquidated is only
    /// cleaned up: its borrower gets `Ok(false)` and no funds move. A live
    /// loan is repaid in full when the payment covers the owed amount —
    /// principal plus simple interest, rounded up in the protocol's favor —
    /// and partially otherwise: `Ok(true)` either way.
    pub open spec fn repay_outcome(self, bank: TokenBank, caller: AccountId, now: Timestamp, loan_id: LoanId, repay_amount: Balance) -> Result<bool, PoolManagerError> {
        let ct = self.contract_account;
        if !self.loan.spec_has(loan_id) {
            Err(PoolManagerError::LoanError(LoanError::LoanNotFound))
        } else {
            let li = self.loan.spec_loan(loan_id);
            if li.already_liquidated {
                if li.borrower != caller {
                    Err(PoolManagerError::NotTheLoanOwner)
                } else {
                    Ok(false)
                }
            } else if bank.spec_alw(li.borrow_token, caller, ct) < repay_amount {
                Err(PoolManagerError::InsufficientAllowance)
            } else if bank.spec_bal(li.borrow_token, caller) < repay_amount {
                Err(PoolManagerError::InsufficientBalance)
            } else if !self.spec_lendable(li.borrow_token) {
                Err(PoolManagerError::AssetNotFound)
            } else {
                let owed = owed_of(li.borrow_amount, now - li.timestamp);
                let btoken = self.spec_btoken(li.borrow_token);
                if repay_amount >= owed {
                    // Claim tokens worth the principal must be burnable from
                    // the pool account; when the pledged collateral is that
                    // very claim token, the payout leaves the same balance.
                    let bt_extra: int = if li.collateral_token == btoken && caller != ct {
                        li.collateral_amount as int
                    } else {
                        0
                    };
                    if li.borrower != caller {
                        Err(PoolManagerError::NotTheLoanOwner)
                    } else if bank.spec_bal(li.collateral_token, ct) < li.collateral_amount {
                        Err(PoolManagerError::InsufficientPoolBalance)
                    } else if bank.spec_bal(btoken, ct) < li.borrow_amount + bt_extra
                        || bank.spec_supply(btoken) < li.borrow_amount {
                        Err(PoolManagerError::InsufficientPoolBalance)
                    } else {
                        Ok(true)
                    }
                } else {
                    let to_return = repay_amount * li.collateral_amount / owed;
                    if bank.spec_bal(li.collateral_token, ct) < to_return {
                        Err(PoolManagerError::InsufficientPoolBalance)
                    } else {
                        Ok(true)
                    }
                }
            }
        }
    }

    /// Whether `repay` gets as far as computing interest: the loan exists,
    /// is live, and the caller's allowance and balance cover the payment.
    pub open spec fn repay_reaches_interest(self, bank: TokenBank, caller: AccountId, loan_id: LoanId, repay_amount: Balance) -> bool {
        let li = self.loan.spec_loan(loan_id);
        &&& self.loan.spec_has(loan_id)
        &&& !li.already_liquidated
        &&& bank.spec_alw(li.borrow_token, caller, self.contract_account) >= repay_amount
        &&& bank.spec_bal(li.borrow_token, caller) >= repay_amount
    }

    /// The machine limits under which `repay` runs; time may not run
    /// backwards past the loan's interest anchor.
    pub open spec fn repay_fits(self, bank: TokenBank, caller: AccountId, now: Timestamp, loan_id: LoanId, repay_amount: Balance) -> bool {
        let ct = self.contract_account;
        let li = self.loan.spec_loan(loan_id);
        let owed = owed_of(li.borrow_amount, now - li.timestamp);
        let btoken = self.spec_btoken(li.borrow_token);
        let to_return = repay_amount * li.collateral_amount / owed;
        let minted = Self::repay_mint_of(owed, repay_amount, li.borrow_amount);
        &&& self.repay_reaches_interest(bank, caller, loan_id, repay_amount) ==> {
            &&& now >= li.timestamp
            &&& li.borrow_amount * (BASIS_POINTS + interest_of(now - li.timestamp)) <= Balance::MAX
        }
        &&& self.repay_reaches_interest(bank, caller, loan_id, repay_amount)
            && self.spec_lendable(li.borrow_token)
            && repay_amount < owed ==> {
            &&& repay_amount * li.collateral_amount <= Balance::MAX
            &&& caller != ct ==> bank.spec_bal(li.borrow_token, ct) + repay_amount <= Balance::MAX
            &&& caller != ct ==> bank.spec_bal(li.collateral_token, caller) + to_return <= Balance::MAX
            &&& bank.spec_supply(btoken) + minted <= Balance::MAX
            &&& bank.spec_bal(btoken, ct) + minted <= Balance::MAX
        }
        &&& self.repay_reaches_interest(bank, caller, loan_id, repay_amount)
            && self.spec_lendable(li.borrow_token)
            && repay_amount >= owed ==> {
            &&& caller != ct ==> bank.spec_bal(li.borrow_token, ct) + owed <= Balance::MAX
            &&& caller != ct ==> bank.spec_bal(li.collateral_token, caller) + li.collateral_amount <= Balance::MAX
        }
    }

    /// What the pool mints on a partial repayment: the accrued-interest
    /// part of the new debt, clamped at zero where rounding would make
    /// it negative.
    pub open spec fn repay_mint_of(owed: int, repay_amount: Balance, borrow_amount: Balance) -> int {
        if owed - repay_amount > borrow_amount {
            owed - repay_amount - borrow_amount
        } else {
            0
        }
    }

    /// The net balance movement of a full repayment at one point: the owed
    /// amount in from the borrower, all remaining collateral out to the
    /// borrower, and the principal's worth of claim tokens burned from the
    /// pool account.
    pub open spec fn repay_full_delta(self, caller: AccountId, li: LoanInfo, owed: int, t: AccountId, a: AccountId) -> int {
        let ct = self.contract_account;
        let btoken = self.spec_btoken(li.borrow_token);
        (if caller != ct && t == li.borrow_token {
            (if a == ct { owed } else { 0 }) - (if a == caller { owed } else { 0 })
        } else { 0 })
        + (if caller != ct && t == li.collateral_token {
            (if a == caller { li.collateral_amount as int } else { 0 })
                - (if a == ct { li.collateral_amount as int } else { 0 })
        } else { 0 })
        + (if t == btoken && a == ct { -(li.borrow_amount as int) } else { 0 })
    }

    /// How a full repayment changes the bank.
    pub open spec fn repay_full_updates(self, b0: TokenBank, b1: TokenBank, caller: AccountId, li: LoanInfo, owed: int) -> bool {
        let ct = self.contract_account;
        let btoken = self.spec_btoken(li.borrow_token);
        &&& b1.next_account == b0.next_account
        &&& forall|t: AccountId| #[trigger] b1.spec_has(t) == b0.spec_has(t)
        &&& forall|t: AccountId| #[trigger] b1.spec_owner(t) == b0.spec_owner(t)
        &&& forall|t: AccountId| t != btoken ==> #[trigger] b1.spec_supply(t) == b0.spec_supply(t)
        &&& b1.spec_supply(btoken) == b0.spec_supply(btoken) - li.borrow_amount
        &&& forall|t: AccountId, k: u128| !(t == li.borrow_token && k == pack2(caller, ct))
            ==> #[trigger] b1.spec_alw_key(t, k) == b0.spec_alw_key(t, k)
        &&& b1.spec_alw(li.borrow_token, caller, ct) == b0.spec_alw(li.borrow_token, caller, ct) - owed
        &&& forall|t: AccountId, a: AccountId| #[trigger] b1.spec_bal(t, a)
            == b0.spec_bal(t, a) + self.repay_full_delta(caller, li, owed, t, a)
    }

    /// The net balance movement of a partial repayment at one point: the
    /// payment in from the caller, the proportional collateral out to the
    /// caller, and the clamped interest delta minted to the pool account.
    pub open spec fn repay_partial_delta(self, caller: AccountId, li: LoanInfo, repay_amount: Balance, to_return: int, minted: int, t: AccountId, a: AccountId) -> int {
        let ct = self.contract_account;
        let btoken = self.spec_btoken(li.borrow_token);
        (if caller != ct && t == li.borrow_token {
            (if a == ct { repay_amount as int } else { 0 }) - (if a == caller { repay_amount as int } else { 0 })
        } else { 0 })
        + (if caller != ct && t == li.collateral_token {
            (if a == caller { to_return } else { 0 }) - (if a == ct { to_return } else { 0 })
        } else { 0 })
        + (if t == btoken && a == ct { minted } else { 0 })
    }

    /// How a partial repayment changes the bank.
    pub open spec fn repay_partial_updates(self, b0: TokenBank, b1: TokenBank, caller: AccountId, li: LoanInfo, owed: int, repay_amount: Balance) -> bool {
        let ct = self.contract_account;
        let btoken = self.spec_btoken(li.borrow_token);
        let to_return = repay_amount * li.collateral_amount / owed;
        let minted = Self::repay_mint_of(owed, repay_amount, li.borrow_amount);
        &&& b1.next_account == b0.next_account
        &&& forall|t: AccountId| #[trigger] b1.spec_has(t) == b0.spec_has(t)
        &&& forall|t: AccountId| #[trigger] b1.spec_owner(t) == b0.spec_owner(t)
        &&& forall|t: AccountId| t != btoken ==> #[trigger] b1.spec_supply(t) == b0.spec_supply(t)
        &&& b1.spec_supply(btoken) == b0.spec_supply(btoken) + minted
        &&& forall|t: AccountId, k: u128| !(t == li.borrow_token && k == pack2(caller, ct))
            ==> #[trigger] b1.spec_alw_key(t, k) == b0.spec_alw_key(t, k)
        &&& b1.spec_alw(li.borrow_token, caller, ct) == b0.spec_alw(li.borrow_token, caller, ct) - repay_amount
        &&& forall|t: AccountId, a: AccountId| #[trigger] b1.spec_bal(t, a)
            == b0.spec_bal(t, a) + self.repay_partial_delta(caller, li, repay_amount, to_return, minted, t, a)
    }

    /// The record a partial repayment leaves: the new debt is what was owed
    /// minus what was paid, the collateral falls by the returned share, and
    /// the interest clock restarts now.
    pub open spec fn repay_partial_loan(li: LoanInfo, owed: int, repay_amount: Balance, now: Timestamp) -> LoanInfo {
        let to_return = repay_amount * li.collateral_amount / owed;
        LoanInfo {
            borrow_amount: (owed - repay_amount) as Balance,
            collateral_amount: (li.collateral_amount - to_return) as Balance,
            timestamp: now,
            ..li
        }
    }

    /// Repays a loan. An already liquidated loan is deleted without moving
    /// funds and `Ok(false)` returned to its borrower. Otherwise interest
    /// accrues linearly on the debt since the loan's anchor; a payment
    /// covering the owed total closes the loan, returns all remaining
    /// collateral and burns the principal's claim tokens, while a smaller
    /// payment returns collateral proportionally, reduces the debt to the
    /// unpaid remainder, restarts the interest clock and reconciles the
    /// accrued interest into the pool's claim supply.
    pub fn repay(&mut self, bank: &mut TokenBank, caller: AccountId, now: Timestamp, loan_id: LoanId, repay_amount: Balance) -> (r: Result<bool, PoolManagerError>)
        requires
            old(self).wf(*old(bank)),
            old(self).repay_fits(*old(bank), caller, now, loan_id, repay_amount),
        ensures
            final(self).wf(*final(bank)),
            r == old(self).repay_outcome(*old(bank), caller, now, loan_id, repay_amount),
            r is Err ==> *final(self) == *old(self) && *final(bank) == *old(bank),
            r is Ok ==> {
                &&& final(self).admin == old(self).admin
                &&& final(self).paused == old(self).paused
                &&& final(self).contract_account == old(self).contract_account
                &&& final(self).assets_lended@ == old(self).assets_lended@
                &&& final(self).asset_btoken@ == old(self).asset_btoken@
                &&& final(self).btoken_asset@ == old(self).btoken_asset@
                &&& final(self).collateral_accepted@ == old(self).collateral_accepted@
                &&& final(self).conversion_rates@ == old(self).conversion_rates@
                &&& final(self).loan.manager_account == old(self).loan.manager_account
                &&& final(self).loan.last_loan_id == old(self).loan.last_loan_id
            },
            r == Ok::<bool, PoolManagerError>(false) ==> {
                &&& *final(bank) == *old(bank)
                &&& final(self).loan.loans@ == old(self).loan.loans@.remove(loan_id)
            },
            r == Ok::<bool, PoolManagerError>(true) ==> {
                let li = old(self).loan.spec_loan(loan_id);
                let owed = owed_of(li.borrow_amount, now - li.timestamp);
                if repay_amount >= owed {
                    &&& old(self).repay_full_updates(*old(bank), *final(bank), caller, li, owed)
                    &&& final(self).loan.loans@ == old(self).loan.loans@.remove(loan_id)
                } else {
                    &&& old(self).repay_partial_updates(*old(bank), *final(bank), caller, li, owed, repay_amount)
                    &&& final(self).loan.loans@ == old(self).loan.loans@.insert(
                        loan_id,
                        Self::repay_partial_loan(li, owed, repay_amount, now),
                    )
                }
            },
    {
        let contract = self.contract_account;
        let loan_info = match self.loan.get_loan_info(loan_id) {
            Ok(info) => info,
            Err(_) => {
                return Err(PoolManagerError::LoanError(LoanError::LoanNotFound));
            },
        };
        if loan_info.already_liquidated {
            match self.loan.delete_loan(contract, caller, loan_id) {
                Ok(()) => {
                    return Ok(false);
                },
                Err(_) => {
                    // The registry is wired to this manager and the record
                    // exists, so only ownership can fail.
                    return Err(PoolManagerError::NotTheLoanOwner);
                },
            }
        }
        let allowance = bank.allowance(loan_info.borrow_token, caller, contract);
        if allowance < repay_amount {
            return Err(PoolManagerError::InsufficientAllowance);
        }
        let user_balance = bank.balance_of(loan_info.borrow_token, caller);
        if user_balance < repay_amount {
            return Err(PoolManagerError::InsufficientBalance);
        }
        let timer = now - loan_info.timestamp;
        let interest = (APY * (timer as Balance)) / (YEAR as Balance);
        let to_repay = ((loan_info.borrow_amount * (BASIS_POINTS + interest)) / BASIS_POINTS) + 1;
        proof {
            vstd::arithmetic::div_mod::lemma_div_is_ordered(
                (loan_info.borrow_amount * (BASIS_POINTS + interest)) as int,
                Balance::MAX as int,
                BASIS_POINTS as int,
            );
        }
        let btoken_address = match self.get_btoken_from_asset(loan_info.borrow_token) {
            Ok(b) => b,
            Err(e) => {
                return Err(e);
            },
        };
        if repay_amount >= to_repay {
            if loan_info.borrower != caller {
                return Err(PoolManagerError::NotTheLoanOwner);
            }
            let pool_collateral = bank.balance_of(loan_info.collateral_token, contract);
            if pool_collateral < loan_info.collateral_amount {
                return Err(PoolManagerError::InsufficientPoolBalance);
            }
            let pool_btokens = bank.balance_of(btoken_address, contract);
            let btoken_supply = bank.total_supply(btoken_address);
            if pool_btokens < loan_info.borrow_amount || btoken_supply < loan_info.borrow_amount {
                return Err(PoolManagerError::InsufficientPoolBalance);
            }
            if loan_info.collateral_token == btoken_address && caller != contract
                && pool_btokens - loan_info.borrow_amount < loan_info.collateral_amount {
                return Err(PoolManagerError::InsufficientPoolBalance);
            }
            bank.do_set_allowance(loan_info.borrow_token, caller, contract, allowance - to_repay);
            bank.do_transfer(loan_info.borrow_token, caller, contract, to_repay);
            bank.do_transfer(loan_info.collateral_token, contract, caller, loan_info.collateral_amount);
            match self.loan.delete_loan(contract, caller, loan_id) {
                Ok(()) => {},
                Err(_) => {
                    // Unreachable: the record exists and the caller was
                    // checked to be its borrower.
                    return Err(PoolManagerError::NotTheLoanOwner);
                },
            }
            bank.do_burn(btoken_address, contract, loan_info.borrow_amount);
            proof {
                lemma_wf_shape(*old(self), *old(bank), *bank);
                assert forall|id: LoanId| #[trigger] self.loan.loans@.contains_key(id)
                    implies self.loan_ok(*bank, self.loan.loans@[id]) by {
                    assert(old(self).loan_ok(*bank, old(self).loan.loans@[id]));
                }
                assert(self.wf(*bank));
            }
            Ok(true)
        } else {
            let to_return = (repay_amount * loan_info.collateral_amount) / to_repay;
            proof {
                vstd::arithmetic::mul::lemma_mul_inequality(
                    repay_amount as int,
                    to_repay as int,
                    loan_info.collateral_amount as int,
                );
                vstd::arithmetic::div_mod::lemma_div_is_ordered(
                    (repay_amount * loan_info.collateral_amount) as int,
                    (to_repay * loan_info.collateral_amount) as int,
                    to_repay as int,
                );
                vstd::arithmetic::div_mod::lemma_div_multiples_vanish(
                    loan_info.collateral_amount as int,
                    to_repay as int,
                );
            }
            let pool_collateral = bank.balance_of(loan_info.collateral_token, contract);
            if pool_collateral < to_return {
                return Err(PoolManagerError::InsufficientPoolBalance);
            }
            bank.do_set_allowance(loan_info.borrow_token, caller, contract, allowance - repay_amount);
            bank.do_transfer(loan_info.borrow_token, caller, contract, repay_amount);
            bank.do_transfer(loan_info.collateral_token, contract, caller, to_return);
            match self.loan.update_loan(contract, loan_id, to_repay - repay_amount, loan_info.collateral_amount - to_return, now) {
                Ok(()) => {},
                Err(_) => {
                    // Unreachable: the registry is wired to this manager
                    // and the record exists.
                    return Err(PoolManagerError::LoanError(LoanError::LoanNotFound));
                },
            }
            let minted: Balance = if to_repay - repay_amount > loan_info.borrow_amount {
                to_repay - repay_amount - loan_info.borrow_amount
            } else {
                0
            };
            bank.do_mint(btoken_address, contract, minted);
            proof {
                lemma_wf_shape(*old(self), *old(bank), *bank);
                assert forall|id: LoanId| #[trigger] self.loan.loans@.contains_key(id)
                    implies self.loan_ok(*bank, self.loan.loans@[id]) by {
                    if old(self).loan.loans@.contains_key(id) {
                        assert(old(self).loan_ok(*bank, old(self).loan.loans@[id]));
                    }
                    assert(self.loan.loans@[id].borrow_token == old(self).loan.loans@[id].borrow_token);
                    assert(self.loan.loans@[id].collateral_token == old(self).loan.loans@[id].collateral_token);
                }
                assert(self.wf(*bank));
            }
            Ok(true)
        }
    }

    /// What `liquidate_loan` returns: the loan must exist and not be
    /// liquidated already; it is liquidatable exactly when its collateral,
    /// valued at the current rate, is worth no more than the liquidation
    /// threshold fixed at origination, and the pool must hold the
    /// liquidator's reward.
    pub open spec fn liquidate_outcome(self, bank: TokenBank, caller: AccountId, loan_id: LoanId) -> Result<(), PoolManagerError> {
        if !self.loan.spec_has(loan_id) {
            Err(PoolManagerError::LoanError(LoanError::LoanNotFound))
        } else {
            let li = self.loan.spec_loan(loan_id);
            if li.already_liquidated {
                Err(PoolManagerError::LoanAlreadyLiquidated)
            } else {
                let price = self.spec_price(li.collateral_token, li.borrow_token, li.collateral_amount);
                if price <= li.liquidation_price {
                    if bank.spec_bal(li.collateral_token, self.contract_account) < reward_of(li.collateral_amount) {
                        Err(PoolManagerError::InsufficientPoolBalance)
                    } else {
                        Ok(())
                    }
                } else {
                    Err(PoolManagerError::LoanUnliquidable)
                }
            }
        }
    }

    /// The machine limits under which `liquidate_loan` runs.
    pub open spec fn liquidate_fits(self, bank: TokenBank, caller: AccountId, loan_id: LoanId) -> bool {
        let li = self.loan.spec_loan(loan_id);
        &&& self.loan.spec_has(loan_id) && !li.already_liquidated ==> {
            &&& self.spec_price(li.collateral_token, li.borrow_token, li.collateral_amount) <= Balance::MAX
            &&& li.collateral_amount * REWARD_NUMERATOR <= Balance::MAX
        }
        &&& self.liquidate_outcome(bank, caller, loan_id) is Ok
            && caller != self.contract_account
            ==> bank.spec_bal(li.collateral_token, caller) + reward_of(li.collateral_amount) <= Balance::MAX
    }

    /// How a successful `liquidate_loan` changes the bank: the reward moves
    /// from the pool to the liquidator; nothing else moves.
    pub open spec fn liquidate_updates(self, b0: TokenBank, b1: TokenBank, caller: AccountId, li: LoanInfo) -> bool {
        let ct = self.contract_account;
        let coll = li.collateral_token;
        let reward = reward_of(li.collateral_amount);
        &&& b1.next_account == b0.next_account
        &&& forall|t: AccountId| #[trigger] b1.spec_has(t) == b0.spec_has(t)
        &&& forall|t: AccountId| #[trigger] b1.spec_owner(t) == b0.spec_owner(t)
        &&& forall|t: AccountId| #[trigger] b1.spec_supply(t) == b0.spec_supply(t)
        &&& forall|t: AccountId, k: u128| #[trigger] b1.spec_alw_key(t, k) == b0.spec_alw_key(t, k)
        &&& forall|t: AccountId, a: AccountId| t != coll ==> #[trigger] b1.spec_bal(t, a) == b0.spec_bal(t, a)
        &&& caller != ct ==> b1.spec_bal(coll, ct) == b0.spec_bal(coll, ct) - reward
        &&& caller != ct ==> b1.spec_bal(coll, caller) == b0.spec_bal(coll, caller) + reward
        &&& forall|a: AccountId| a != caller && a != ct ==> #[trigger] b1.spec_bal(coll, a) == b0.spec_bal(coll, a)
        &&& caller == ct ==> forall|a: AccountId| #[trigger] b1.spec_bal(coll, a) == b0.spec_bal(coll, a)
    }

    /// Liquidates an under-collateralized loan: values the remaining
    /// collateral at the current rate and, if that value has fallen to the
    /// loan's liquidation threshold or below, pays the caller one percent
    /// of the collateral out of the pool's holdings and marks the loan
    /// liquidated. A healthy position cannot be liquidated.
    pub fn liquidate_loan(&mut self, bank: &mut TokenBank, caller: AccountId, loan_id: LoanId) -> (r: Result<(), PoolManagerError>)
        requires
            old(self).wf(*old(bank)),
            old(self).liquidate_fits(*old(bank), caller, loan_id),
        ensures
            final(self).wf(*final(bank)),
            r == old(self).liquidate_outcome(*old(bank), caller, loan_id),
            r is Err ==> *final(self) == *old(self) && *final(bank) == *old(bank),
            r is Ok ==> {
                let li = old(self).loan.spec_loan(loan_id);
                &&& final(self).admin == old(self).admin
                &&& final(self).paused == old(self).paused
                &&& final(self).contract_account == old(self).contract_account
                &&& final(self).assets_lended@ == old(self).assets_lended@
                &&& final(self).asset_btoken@ == old(self).asset_btoken@
                &&& final(self).btoken_asset@ == old(self).btoken_asset@
                &&& final(self).collateral_accepted@ == old(self).collateral_accepted@
                &&& final(self).conversion_rates@ == old(self).conversion_rates@
                &&& final(self).loan.manager_account == old(self).loan.manager_account
                &&& final(self).loan.last_loan_id == old(self).loan.last_loan_id
                &&& final(self).loan.loans@ == old(self).loan.loans@.insert(loan_id, (LoanInfo {
                    already_liquidated: true,
                    ..li
                }))
                &&& old(self).liquidate_updates(*old(bank), *final(bank), caller, li)
            },
    {
        let contract = self.contract_account;
        let loan_info = match self.loan.get_loan_info(loan_id) {
            Ok(info) => info,
            Err(_) => {
                return Err(PoolManagerError::LoanError(LoanError::LoanNotFound));
            },
        };
        if loan_info.already_liquidated {
            return Err(PoolManagerError::LoanAlreadyLiquidated);
        }
        let price = self.get_conversion_rate(loan_info.collateral_token, loan_info.borrow_token, loan_info.collateral_amount);
        if price <= loan_info.liquidation_price {
            let reward = (loan_info.collateral_amount * REWARD_NUMERATOR) / REWARD_DENOMINATOR;
            let pool_collateral = bank.balance_of(loan_info.collateral_token, contract);
            if pool_collateral < reward {
                return Err(PoolManagerError::InsufficientPoolBalance);
            }
            bank.do_transfer(loan_info.collateral_token, contract, caller, reward);
            match self.loan.liquidate_loan(contract, loan_id) {
                Ok(()) => {},
                Err(_) => {
                    // Unreachable: the registry is wired to this manager
                    // and the record exists.
                    return Err(PoolManagerError::LoanError(LoanError::LoanNotFound));
                },
            }
            proof {
                lemma_wf_shape(*old(self), *old(bank), *bank);
                assert forall|id: LoanId| #[trigger] self.loan.loans@.contains_key(id)
                    implies self.loan_ok(*bank, self.loan.loans@[id]) by {
                    if old(self).loan.loans@.contains_key(id) {
                        assert(old(self).loan_ok(*bank, old(self).loan.loans@[id]));
                    }
                    assert(self.loan.loans@[id].borrow_token == old(self).loan.loans@[id].borrow_token);
                    assert(self.loan.loans@[id].collateral_token == old(self).loan.loans@[id].collateral_token);
                }
                assert(self.wf(*bank));
            }
            Ok(())
        } else {
            Err(PoolManagerError::LoanUnliquidable)
        }
    }

    /// What refusing `asset_address` as collateral returns: admin-gated and
    /// refused while the asset is already not accepted.
    pub open spec fn set_collateral_disallowance_outcome(self, caller: AccountId, asset_address: AccountId) -> Result<(), PoolManagerError> {
        if caller != self.admin {
            Err(PoolManagerError::AccessControlError)
        } else if !self.spec_collateral_ok(asset_address) {
            Err(PoolManagerError::CollateralAlreadyUnsupported)
        } else {
            Ok(())
        }
    }

    /// Stops accepting `asset_address` as collateral for new loans; loans
    /// already open keep their pledged collateral.
    pub fn set_collateral_disallowance(&mut self, bank: &TokenBank, caller: AccountId, asset_address: AccountId) -> (r: Result<(), PoolManagerError>)
        requires
            old(self).wf(*bank),
        ensures
            final(self).wf(*bank),
            r == old(self).set_collateral_disallowance_outcome(caller, asset_address),
            r is Err ==> *final(self) == *old(self),
            r is Ok ==> {
                &&& *final(self) == (PoolManagerContract {
                    collateral_accepted: final(self).collateral_accepted,
                    ..*old(self)
                })
                &&& final(self).collateral_accepted@ == old(self).collateral_accepted@.insert(asset_address, false)
            },
    {
        if caller != self.admin {
            return Err(PoolManagerError::AccessControlError);
        }
        if !self.get_collateral_acceptance(asset_address) {
            return Err(PoolManagerError::CollateralAlreadyUnsupported);
        }
        self.collateral_accepted.insert(asset_address, false);
        Ok(())
    }
}

/// A bank whose token ids, owners and allocator are unchanged keeps any
/// manager well formed: balances, supplies and allowances play no part in
/// well-formedness.
pub proof fn lemma_wf_shape(pm: PoolManagerContract, b0: TokenBank, b1: TokenBank)
    requires
        pm.wf(b0),
        b1.wf(),
        b1.next_account == b0.next_account,
        forall|t: AccountId| #[trigger] b1.spec_has(t) == b0.spec_has(t),
        forall|t: AccountId| #[trigger] b1.spec_owner(t) == b0.spec_owner(t),
    ensures
        pm.wf(b1),
{
    assert forall|a: AccountId| #[trigger] pm.asset_btoken@.contains_key(a)
        implies pm.pool_ok(b1, a) by {
        assert(pm.pool_ok(b0, a));
        assert(b1.spec_has(a) == b0.spec_has(a));
        assert(b1.spec_has(pm.asset_btoken@[a]) == b0.spec_has(pm.asset_btoken@[a]));
        assert(b1.spec_owner(pm.asset_btoken@[a]) == b0.spec_owner(pm.asset_btoken@[a]));
    }
    assert forall|c: AccountId| #[trigger] pm.collateral_accepted@.contains_key(c)
        && pm.collateral_accepted@[c] implies b1.spec_has(c) by {
        assert(b1.spec_has(c) == b0.spec_has(c));
    }
    assert forall|id: LoanId| #[trigger] pm.loan.loans@.contains_key(id)
        implies pm.loan_ok(b1, pm.loan.loans@[id]) by {
        assert(pm.loan_ok(b0, pm.loan.loans@[id]));
        assert(b1.spec_has(pm.loan.loans@[id].borrow_token) == b0.spec_has(pm.loan.loans@[id].borrow_token));
        assert(b1.spec_has(pm.loan.loans@[id].collateral_token) == b0.spec_has(pm.loan.loans@[id].collateral_token));
    }
}

} // verus!
