//! Fungible token ledgers.
//!
//! A [`TokenBank`] holds one [`TokenLedger`] per token, keyed by the token's
//! account id. A ledger records an owner (the only account allowed to mint and
//! burn), a total supply, per-account balances and per-(owner, spender)
//! allowances. The same type serves both the pooled assets and the claim
//! tokens that represent pool shares: every failure is a typed
//! [`TokenError`](crate::errors::TokenError), never a panic.

use vstd::prelude::*;
use std::collections::HashMap;
use crate::types::{AccountId, Balance};
use crate::errors::TokenError;

verus! {

/// How far apart two packed (owner, spender) keys are: one full account span.
pub const ACCOUNT_SPAN: u128 = 0x1_0000_0000_0000_0000;

/// Packs an (owner, spender) account pair into one allowance key.
pub open spec fn pack2(owner: AccountId, spender: AccountId) -> u128 {
    (owner * ACCOUNT_SPAN + spender) as u128
}

/// Computes the allowance key for an (owner, spender) pair.
pub fn pack2_exec(owner: AccountId, spender: AccountId) -> (r: u128)
    ensures
        r == pack2(owner, spender),
{
    proof {
        assert((owner as u128) * ACCOUNT_SPAN + (spender as u128) <= u128::MAX)
            by (nonlinear_arith)
            requires
                owner <= 0xFFFF_FFFF_FFFF_FFFFu64,
                spender <= 0xFFFF_FFFF_FFFF_FFFFu64,
        ;
    }
    (owner as u128) * ACCOUNT_SPAN + (spender as u128)
}

/// The books of one fungible token.
pub struct TokenLedger {
    /// The only account allowed to mint and burn.
    pub owner: AccountId,
    /// Sum of everything ever minted minus everything burned.
    pub total_supply: Balance,
    /// Balance per account; an absent account holds zero.
    pub balances: HashMap<AccountId, Balance>,
    /// Allowance per packed (owner, spender) pair; absent means zero.
    pub allowances: HashMap<u128, Balance>,
}

/// All token ledgers, keyed by token account id, plus the id allocator
/// from which new token and sub-account ids are drawn.
pub struct TokenBank {
    /// One ledger per existing token.
    pub tokens: HashMap<AccountId, TokenLedger>,
    /// The next id the allocator will hand out; all existing token ids
    /// are below it.
    pub next_account: AccountId,
}

impl TokenBank {
    /// Every token id was drawn from the allocator, so sits below it.
    pub open spec fn wf(self) -> bool {
        forall|t: AccountId| #[trigger] self.spec_has(t) ==> t < self.next_account
    }

    /// Whether a ledger exists for `token`.
    pub open spec fn spec_has(self, token: AccountId) -> bool {
        self.tokens@.contains_key(token)
    }

    /// The account allowed to mint and burn `token`; zero if the token
    /// does not exist.
    pub open spec fn spec_owner(self, token: AccountId) -> AccountId {
        if self.spec_has(token) {
            self.tokens@[token].owner
        } else {
            0
        }
    }

    /// The total supply of `token`; zero if the token does not exist.
    pub open spec fn spec_supply(self, token: AccountId) -> Balance {
        if self.spec_has(token) {
            self.tokens@[token].total_supply
        } else {
            0
        }
    }

    /// The balance of `account` in `token`; zero if either is unknown.
    pub open spec fn spec_bal(self, token: AccountId, account: AccountId) -> Balance {
        if self.spec_has(token) && self.tokens@[token].balances@.contains_key(account) {
            self.tokens@[token].balances@[account]
        } else {
            0
        }
    }

    /// The allowance stored under a packed (owner, spender) key.
    pub open spec fn spec_alw_key(self, token: AccountId, key: u128) -> Balance {
        if self.spec_has(token) && self.tokens@[token].allowances@.contains_key(key) {
            self.tokens@[token].allowances@[key]
        } else {
            0
        }
    }

    /// What `spender` may still move out of `owner`'s balance in `token`.
    pub open spec fn spec_alw(self, token: AccountId, owner: AccountId, spender: AccountId) -> Balance {
        self.spec_alw_key(token, pack2(owner, spender))
    }

    /// An empty bank: no tokens, allocator starting at 1.
    pub fn new() -> (r: TokenBank)
        ensures
            r.wf(),
            r.next_account == 1,
            forall|t: AccountId| !(#[trigger] r.spec_has(t)),
    {
        TokenBank { tokens: HashMap::new(), next_account: 1 }
    }

    /// Hands out a fresh account id, never used by any existing token and
    /// never handed out twice.
    pub fn fresh_account(&mut self) -> (r: AccountId)
        requires
            old(self).next_account < AccountId::MAX,
        ensures
            r == old(self).next_account,
            final(self).next_account == old(self).next_account + 1,
            final(self).tokens@ == old(self).tokens@,
            old(self).wf() ==> final(self).wf(),
    {
        let r = self.next_account;
        self.next_account = self.next_account + 1;
        proof {
            if old(self).wf() {
                assert forall|t: AccountId| #[trigger] self.spec_has(t) implies t < self.next_account by {
                    assert(old(self).spec_has(t));
                }
                assert(self.wf());
            }
        }
        r
    }

    /// Creates a new token with a fresh id, an empty book and `owner` as the
    /// only account allowed to mint and burn it.
    pub fn create_token(&mut self, owner: AccountId) -> (r: AccountId)
        requires
            old(self).wf(),
            old(self).next_account < AccountId::MAX,
        ensures
            final(self).wf(),
            r == old(self).next_account,
            !old(self).spec_has(r),
            final(self).next_account == old(self).next_account + 1,
            final(self).spec_has(r),
            final(self).spec_owner(r) == owner,
            final(self).spec_supply(r) == 0,
            forall|a: AccountId| final(self).spec_bal(r, a) == 0,
            forall|k: u128| final(self).spec_alw_key(r, k) == 0,
            forall|t: AccountId| t != r ==> #[trigger] final(self).spec_has(t) == old(self).spec_has(t),
            forall|t: AccountId| t != r ==> #[trigger] final(self).spec_owner(t) == old(self).spec_owner(t),
            forall|t: AccountId| t != r ==> #[trigger] final(self).spec_supply(t) == old(self).spec_supply(t),
            forall|t: AccountId, a: AccountId| t != r ==> #[trigger] final(self).spec_bal(t, a) == old(self).spec_bal(t, a),
            forall|t: AccountId, k: u128| t != r ==> #[trigger] final(self).spec_alw_key(t, k) == old(self).spec_alw_key(t, k),
    {
        let id = self.next_account;
        self.next_account = self.next_account + 1;
        let ledger = TokenLedger {
            owner,
            total_supply: 0,
            balances: HashMap::new(),
            allowances: HashMap::new(),
        };
        self.tokens.insert(id, ledger);
        proof {
            assert forall|t: AccountId| #[trigger] self.spec_has(t) implies t < self.next_account by {
                if t != id {
                    assert(old(self).spec_has(t));
                }
            }
            assert(self.wf());
        }
        id
    }

    /// Reads the balance of `account` in `token`.
    pub fn balance_of(&self, token: AccountId, account: AccountId) -> (r: Balance)
        ensures
            r == self.spec_bal(token, account),
    {
        match self.tokens.get(&token) {
            Some(l) => match l.balances.get(&account) {
                Some(b) => *b,
                None => 0,
            },
            None => 0,
        }
    }

    /// Reads the allowance of (owner, spender) in `token`.
    pub fn allowance(&self, token: AccountId, owner: AccountId, spender: AccountId) -> (r: Balance)
        ensures
            r == self.spec_alw(token, owner, spender),
    {
        let key = pack2_exec(owner, spender);
        match self.tokens.get(&token) {
            Some(l) => match l.allowances.get(&key) {
                Some(b) => *b,
                None => 0,
            },
            None => 0,
        }
    }

    /// Reads the total supply of `token`.
    pub fn total_supply(&self, token: AccountId) -> (r: Balance)
        ensures
            r == self.spec_supply(token),
    {
        match self.tokens.get(&token) {
            Some(l) => l.total_supply,
            None => 0,
        }
    }

    /// Whether a ledger exists for `token`.
    pub fn has_token(&self, token: AccountId) -> (r: bool)
        ensures
            r == self.spec_has(token),
    {
        self.tokens.contains_key(&token)
    }

    /// Reads the owner of `token`; zero if the token does not exist.
    pub fn owner_of(&self, token: AccountId) -> (r: AccountId)
        ensures
            r == self.spec_owner(token),
    {
        match self.tokens.get(&token) {
            Some(l) => l.owner,
            None => 0,
        }
    }

    /// Moves `amount` of `token` from `from` to `to`. All checks are the
    /// caller's duty: this is the internal step shared by the checked
    /// operations and the pool manager, which check first and move after.
    pub(crate) fn do_transfer(&mut self, token: AccountId, from: AccountId, to: AccountId, amount: Balance)
        requires
            old(self).spec_has(token),
            old(self).spec_bal(token, from) >= amount,
            from != to ==> old(self).spec_bal(token, to) + amount <= Balance::MAX,
        ensures
            old(self).wf() ==> final(self).wf(),
            final(self).next_account == old(self).next_account,
            forall|t: AccountId| #[trigger] final(self).spec_has(t) == old(self).spec_has(t),
            forall|t: AccountId| #[trigger] final(self).spec_owner(t) == old(self).spec_owner(t),
            forall|t: AccountId| #[trigger] final(self).spec_supply(t) == old(self).spec_supply(t),
            forall|t: AccountId, k: u128| #[trigger] final(self).spec_alw_key(t, k) == old(self).spec_alw_key(t, k),
            forall|t: AccountId, a: AccountId| t != token ==> #[trigger] final(self).spec_bal(t, a) == old(self).spec_bal(t, a),
            from != to ==> final(self).spec_bal(token, from) == old(self).spec_bal(token, from) - amount,
            from != to ==> final(self).spec_bal(token, to) == old(self).spec_bal(token, to) + amount,
            forall|a: AccountId| a != from && a != to ==> #[trigger] final(self).spec_bal(token, a) == old(self).spec_bal(token, a),
            from == to ==> forall|a: AccountId| #[trigger] final(self).spec_bal(token, a) == old(self).spec_bal(token, a),
    {
        let l_opt = self.tokens.remove(&token);
        let mut l = l_opt.unwrap();
        let from_bal = match l.balances.get(&from) {
            Some(b) => *b,
            None => 0,
        };
        l.balances.insert(from, from_bal - amount);
        let to_bal = match l.balances.get(&to) {
            Some(b) => *b,
            None => 0,
        };
        l.balances.insert(to, to_bal + amount);
        self.tokens.insert(token, l);
        proof {
            if old(self).wf() {
                assert forall|t: AccountId| #[trigger] self.spec_has(t) implies t < self.next_account by {
                    assert(old(self).spec_has(t));
                }
                assert(self.wf());
            }
        }
    }

    /// Creates `amount` new units of `token` in `to`'s balance. Checks are
    /// the caller's duty.
    pub(crate) fn do_mint(&mut self, token: AccountId, to: AccountId, amount: Balance)
        requires
            old(self).spec_has(token),
            old(self).spec_supply(token) + amount <= Balance::MAX,
            old(self).spec_bal(token, to) + amount <= Balance::MAX,
        ensures
            old(self).wf() ==> final(self).wf(),
            final(self).next_account == old(self).next_account,
            forall|t: AccountId| #[trigger] final(self).spec_has(t) == old(self).spec_has(t),
            forall|t: AccountId| #[trigger] final(self).spec_owner(t) == old(self).spec_owner(t),
            forall|t: AccountId| t != token ==> #[trigger] final(self).spec_supply(t) == old(self).spec_supply(t),
            final(self).spec_supply(token) == old(self).spec_supply(token) + amount,
            forall|t: AccountId, k: u128| #[trigger] final(self).spec_alw_key(t, k) == old(self).spec_alw_key(t, k),
            forall|t: AccountId, a: AccountId| !(t == token && a == to) ==> #[trigger] final(self).spec_bal(t, a) == old(self).spec_bal(t, a),
            final(self).spec_bal(token, to) == old(self).spec_bal(token, to) + amount,
    {
        let l_opt = self.tokens.remove(&token);
        let mut l = l_opt.unwrap();
        let to_bal = match l.balances.get(&to) {
            Some(b) => *b,
            None => 0,
        };
        l.balances.insert(to, to_bal + amount);
        l.total_supply = l.total_supply + amount;
        self.tokens.insert(token, l);
        proof {
            if old(self).wf() {
                assert forall|t: AccountId| #[trigger] self.spec_has(t) implies t < self.next_account by {
                    assert(old(self).spec_has(t));
                }
                assert(self.wf());
            }
        }
    }

    /// Destroys `amount` units of `token` from `from`'s balance. Checks are
    /// the caller's duty.
    pub(crate) fn do_burn(&mut self, token: AccountId, from: AccountId, amount: Balance)
        requires
            old(self).spec_has(token),
            old(self).spec_bal(token, from) >= amount,
            old(self).spec_supply(token) >= amount,
        ensures
            old(self).wf() ==> final(self).wf(),
            final(self).next_account == old(self).next_account,
            forall|t: AccountId| #[trigger] final(self).spec_has(t) == old(self).spec_has(t),
            forall|t: AccountId| #[trigger] final(self).spec_owner(t) == old(self).spec_owner(t),
            forall|t: AccountId| t != token ==> #[trigger] final(self).spec_supply(t) == old(self).spec_supply(t),
            final(self).spec_supply(token) == old(self).spec_supply(token) - amount,
            forall|t: AccountId, k: u128| #[trigger] final(self).spec_alw_key(t, k) == old(self).spec_alw_key(t, k),
            forall|t: AccountId, a: AccountId| !(t == token && a == from) ==> #[trigger] final(self).spec_bal(t, a) == old(self).spec_bal(t, a),
            final(self).spec_bal(token, from) == old(self).spec_bal(token, from) - amount,
    {
        let l_opt = self.tokens.remove(&token);
        let mut l = l_opt.unwrap();
        let from_bal = match l.balances.get(&from) {
            Some(b) => *b,
            None => 0,
        };
        l.balances.insert(from, from_bal - amount);
        l.total_supply = l.total_supply - amount;
        self.tokens.insert(token, l);
        proof {
            if old(self).wf() {
                assert forall|t: AccountId| #[trigger] self.spec_has(t) implies t < self.next_account by {
                    assert(old(self).spec_has(t));
                }
                assert(self.wf());
            }
        }
    }

    /// Sets the allowance of (owner, spender) in `token` to `amount`.
    /// Checks are the caller's duty.
    pub(crate) fn do_set_allowance(&mut self, token: AccountId, owner: AccountId, spender: AccountId, amount: Balance)
        requires
            old(self).spec_has(token),
        ensures
            old(self).wf() ==> final(self).wf(),
            final(self).next_account == old(self).next_account,
            forall|t: AccountId| #[trigger] final(self).spec_has(t) == old(self).spec_has(t),
            forall|t: AccountId| #[trigger] final(self).spec_owner(t) == old(self).spec_owner(t),
            forall|t: AccountId| #[trigger] final(self).spec_supply(t) == old(self).spec_supply(t),
            forall|t: AccountId, a: AccountId| #[trigger] final(self).spec_bal(t, a) == old(self).spec_bal(t, a),
            forall|t: AccountId, k: u128| !(t == token && k == pack2(owner, spender)) ==> #[trigger] final(self).spec_alw_key(t, k) == old(self).spec_alw_key(t, k),
            final(self).spec_alw(token, owner, spender) == amount,
    {
        let key = pack2_exec(owner, spender);
        let l_opt = self.tokens.remove(&token);
        let mut l = l_opt.unwrap();
        l.allowances.insert(key, amount);
        self.tokens.insert(token, l);
        proof {
            if old(self).wf() {
                assert forall|t: AccountId| #[trigger] self.spec_has(t) implies t < self.next_account by {
                    assert(old(self).spec_has(t));
                }
                assert(self.wf());
            }
        }
    }

    /// Sets what `spender` may move out of the caller's balance in `token`.
    pub fn approve(&mut self, caller: AccountId, token: AccountId, spender: AccountId, amount: Balance) -> (r: Result<(), TokenError>)
        ensures
            r == (if !old(self).spec_has(token) {
                Err::<(), TokenError>(TokenError::TokenNotFound)
            } else {
                Ok::<(), TokenError>(())
            }),
            r is Err ==> *final(self) == *old(self),
            r is Ok ==> {
                &&& final(self).next_account == old(self).next_account
                &&& forall|t: AccountId| #[trigger] final(self).spec_has(t) == old(self).spec_has(t)
                &&& forall|t: AccountId| #[trigger] final(self).spec_owner(t) == old(self).spec_owner(t)
                &&& forall|t: AccountId| #[trigger] final(self).spec_supply(t) == old(self).spec_supply(t)
                &&& forall|t: AccountId, a: AccountId| #[trigger] final(self).spec_bal(t, a) == old(self).spec_bal(t, a)
                &&& forall|t: AccountId, k: u128| !(t == token && k == pack2(caller, spender)) ==> #[trigger] final(self).spec_alw_key(t, k) == old(self).spec_alw_key(t, k)
                &&& final(self).spec_alw(token, caller, spender) == amount
            },
    {
        if !self.has_token(token) {
            return Err(TokenError::TokenNotFound);
        }
        self.do_set_allowance(token, caller, spender, amount);
        Ok(())
    }

    /// Moves `amount` of `token` from the caller's balance to `to`.
    pub fn transfer(&mut self, caller: AccountId, token: AccountId, to: AccountId, amount: Balance) -> (r: Result<(), TokenError>)
        ensures
            r == (if !old(self).spec_has(token) {
                Err::<(), TokenError>(TokenError::TokenNotFound)
            } else if old(self).spec_bal(token, caller) < amount {
                Err::<(), TokenError>(TokenError::InsufficientBalance)
            } else if caller != to && old(self).spec_bal(token, to) + amount > Balance::MAX {
                Err::<(), TokenError>(TokenError::Overflow)
            } else {
                Ok::<(), TokenError>(())
            }),
            r is Err ==> *final(self) == *old(self),
            r is Ok ==> {
                &&& final(self).next_account == old(self).next_account
                &&& forall|t: AccountId| #[trigger] final(self).spec_has(t) == old(self).spec_has(t)
                &&& forall|t: AccountId| #[trigger] final(self).spec_owner(t) == old(self).spec_owner(t)
                &&& forall|t: AccountId| #[trigger] final(self).spec_supply(t) == old(self).spec_supply(t)
                &&& forall|t: AccountId, k: u128| #[trigger] final(self).spec_alw_key(t, k) == old(self).spec_alw_key(t, k)
                &&& forall|t: AccountId, a: AccountId| t != token ==> #[trigger] final(self).spec_bal(t, a) == old(self).spec_bal(t, a)
                &&& caller != to ==> final(self).spec_bal(token, caller) == old(self).spec_bal(token, caller) - amount
                &&& caller != to ==> final(self).spec_bal(token, to) == old(self).spec_bal(token, to) + amount
                &&& forall|a: AccountId| a != caller && a != to ==> #[trigger] final(self).spec_bal(token, a) == old(self).spec_bal(token, a)
                &&& caller == to ==> forall|a: AccountId| #[trigger] final(self).spec_bal(token, a) == old(self).spec_bal(token, a)
            },
    {
        if !self.has_token(token) {
            return Err(TokenError::TokenNotFound);
        }
        let caller_bal = self.balance_of(token, caller);
        if caller_bal < amount {
            return Err(TokenError::InsufficientBalance);
        }
        if caller != to {
            let to_bal = self.balance_of(token, to);
            if to_bal > Balance::MAX - amount {
                return Err(TokenError::Overflow);
            }
        }
        self.do_transfer(token, caller, to, amount);
        Ok(())
    }

    /// Moves `amount` of `token` from `from` to `to`, drawing down the
    /// caller's allowance from `from` by the same amount.
    pub fn transfer_from(&mut self, caller: AccountId, token: AccountId, from: AccountId, to: AccountId, amount: Balance) -> (r: Result<(), TokenError>)
        ensures
            r == (if !old(self).spec_has(token) {
                Err::<(), TokenError>(TokenError::TokenNotFound)
            } else if old(self).spec_alw(token, from, caller) < amount {
                Err::<(), TokenError>(TokenError::InsufficientAllowance)
            } else if old(self).spec_bal(token, from) < amount {
                Err::<(), TokenError>(TokenError::InsufficientBalance)
            } else if from != to && old(self).spec_bal(token, to) + amount > Balance::MAX {
                Err::<(), TokenError>(TokenError::Overflow)
            } else {
                Ok::<(), TokenError>(())
            }),
            r is Err ==> *final(self) == *old(self),
            r is Ok ==> {
                &&& final(self).next_account == old(self).next_account
                &&& forall|t: AccountId| #[trigger] final(self).spec_has(t) == old(self).spec_has(t)
                &&& forall|t: AccountId| #[trigger] final(self).spec_owner(t) == old(self).spec_owner(t)
                &&& forall|t: AccountId| #[trigger] final(self).spec_supply(t) == old(self).spec_supply(t)
                &&& forall|t: AccountId, k: u128| !(t == token && k == pack2(from, caller)) ==> #[trigger] final(self).spec_alw_key(t, k) == old(self).spec_alw_key(t, k)
                &&& final(self).spec_alw(token, from, caller) == old(self).spec_alw(token, from, caller) - amount
                &&& forall|t: AccountId, a: AccountId| t != token ==> #[trigger] final(self).spec_bal(t, a) == old(self).spec_bal(t, a)
                &&& from != to ==> final(self).spec_bal(token, from) == old(self).spec_bal(token, from) - amount
                &&& from != to ==> final(self).spec_bal(token, to) == old(self).spec_bal(token, to) + amount
                &&& forall|a: AccountId| a != from && a != to ==> #[trigger] final(self).spec_bal(token, a) == old(self).spec_bal(token, a)
                &&& from == to ==> forall|a: AccountId| #[trigger] final(self).spec_bal(token, a) == old(self).spec_bal(token, a)
            },
    {
        if !self.has_token(token) {
            return Err(TokenError::TokenNotFound);
        }
        let alw = self.allowance(token, from, caller);
        if alw < amount {
            return Err(TokenError::InsufficientAllowance);
        }
        let from_bal = self.balance_of(token, from);
        if from_bal < amount {
            return Err(TokenError::InsufficientBalance);
        }
        if from != to {
            let to_bal = self.balance_of(token, to);
            if to_bal > Balance::MAX - amount {
                return Err(TokenError::Overflow);
            }
        }
        self.do_set_allowance(token, from, caller, alw - amount);
        self.do_transfer(token, from, to, amount);
        Ok(())
    }

    /// Creates `amount` new units of `token` in `to`'s balance; only the
    /// ledger's owner may mint.
    pub fn mint(&mut self, caller: AccountId, token: AccountId, to: AccountId, amount: Balance) -> (r: Result<(), TokenError>)
        ensures
            r == (if !old(self).spec_has(token) {
                Err::<(), TokenError>(TokenError::TokenNotFound)
            } else if caller != old(self).spec_owner(token) {
                Err::<(), TokenError>(TokenError::NotOwner)
            } else if old(self).spec_supply(token) + amount > Balance::MAX
                || old(self).spec_bal(token, to) + amount > Balance::MAX {
                Err::<(), TokenError>(TokenError::Overflow)
            } else {
                Ok::<(), TokenError>(())
            }),
            r is Err ==> *final(self) == *old(self),
            r is Ok ==> {
                &&& final(self).next_account == old(self).next_account
                &&& forall|t: AccountId| #[trigger] final(self).spec_has(t) == old(self).spec_has(t)
                &&& forall|t: AccountId| #[trigger] final(self).spec_owner(t) == old(self).spec_owner(t)
                &&& forall|t: AccountId| t != token ==> #[trigger] final(self).spec_supply(t) == old(self).spec_supply(t)
                &&& final(self).spec_supply(token) == old(self).spec_supply(token) + amount
                &&& forall|t: AccountId, k: u128| #[trigger] final(self).spec_alw_key(t, k) == old(self).spec_alw_key(t, k)
                &&& forall|t: AccountId, a: AccountId| !(t == token && a == to) ==> #[trigger] final(self).spec_bal(t, a) == old(self).spec_bal(t, a)
                &&& final(self).spec_bal(token, to) == old(self).spec_bal(token, to) + amount
            },
    {
        if !self.has_token(token) {
            return Err(TokenError::TokenNotFound);
        }
        if caller != self.owner_of(token) {
            return Err(TokenError::NotOwner);
        }
        let supply = self.total_supply(token);
        let to_bal = self.balance_of(token, to);
        if supply > Balance::MAX - amount || to_bal > Balance::MAX - amount {
            return Err(TokenError::Overflow);
        }
        self.do_mint(token, to, amount);
        Ok(())
    }

    /// Destroys `amount` units of `token` from `from`'s balance; only the
    /// ledger's owner may burn.
    pub fn burn(&mut self, caller: AccountId, token: AccountId, from: AccountId, amount: Balance) -> (r: Result<(), TokenError>)
        ensures
            r == (if !old(self).spec_has(token) {
                Err::<(), TokenError>(TokenError::TokenNotFound)
            } else if caller != old(self).spec_owner(token) {
                Err::<(), TokenError>(TokenError::NotOwner)
            } else if old(self).spec_bal(token, from) < amount
                || old(self).spec_supply(token) < amount {
                Err::<(), TokenError>(TokenError::InsufficientBalance)
            } else {
                Ok::<(), TokenError>(())
            }),
            r is Err ==> *final(self) == *old(self),
            r is Ok ==> {
                &&& final(self).next_account == old(self).next_account
                &&& forall|t: AccountId| #[trigger] final(self).spec_has(t) == old(self).spec_has(t)
                &&& forall|t: AccountId| #[trigger] final(self).spec_owner(t) == old(self).spec_owner(t)
                &&& forall|t: AccountId| t != token ==> #[trigger] final(self).spec_supply(t) == old(self).spec_supply(t)
                &&& final(self).spec_supply(token) == old(self).spec_supply(token) - amount
                &&& forall|t: AccountId, k: u128| #[trigger] final(self).spec_alw_key(t, k) == old(self).spec_alw_key(t, k)
                &&& forall|t: AccountId, a: AccountId| !(t == token && a == from) ==> #[trigger] final(self).spec_bal(t, a) == old(self).spec_bal(t, a)
                &&& final(self).spec_bal(token, from) == old(self).spec_bal(token, from) - amount
            },
    {
        if !self.has_token(token) {
            return Err(TokenError::TokenNotFound);
        }
        if caller != self.owner_of(token) {
            return Err(TokenError::NotOwner);
        }
        let from_bal = self.balance_of(token, from);
        let supply = self.total_supply(token);
        if from_bal < amount || supply < amount {
            return Err(TokenError::InsufficientBalance);
        }
        self.do_burn(token, from, amount);
        Ok(())
    }
}

} // verus!
