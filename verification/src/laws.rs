//! Protocol laws: properties that hold across operations, stated over the
//! same specification functions the operations' contracts use.

use vstd::prelude::*;
use vstd::arithmetic::div_mod::{lemma_fundamental_div_mod, lemma_div_is_ordered, lemma_div_multiples_vanish, lemma_mod_division_less_than_divisor, lemma_div_pos_is_pos};
use vstd::arithmetic::mul::lemma_mul_inequality;
use crate::types::{AccountId, Balance, Timestamp, LoanId};
use crate::ledger::TokenBank;
use crate::loan::{LoanContract, LoanInfo};
use crate::errors::{LoanError, PoolManagerError};
use crate::manager::{PoolManagerContract, owed_of, interest_of, borrow_amt_of, liq_price_of};

verus! {

/// A deposit's freshly minted claim tokens match its share of the pool's
/// pre-deposit value within rounding: into an empty pool the deposit mints
/// one claim per unit, and otherwise the minted count is the largest whole
/// number of claims whose share of the pool does not exceed the deposit's,
/// `minted * totalAsset <= amount * totalShares < (minted + 1) * totalAsset`.
pub proof fn lemma_lend_proportional(pm: PoolManagerContract, bank: TokenBank, caller: AccountId, asset_address: AccountId, amount: Balance)
    requires
        pm.lend_outcome(bank, caller, asset_address, amount) is Ok,
    ensures
        pm.spec_total_asset(bank, asset_address) == 0
            ==> pm.lend_minted(bank, asset_address, amount) == amount,
        pm.spec_total_asset(bank, asset_address) > 0
            ==> pm.lend_minted(bank, asset_address, amount) * pm.spec_total_asset(bank, asset_address)
                    <= amount * bank.spec_supply(pm.spec_btoken(asset_address))
                && amount * bank.spec_supply(pm.spec_btoken(asset_address))
                    < (pm.lend_minted(bank, asset_address, amount) + 1) * pm.spec_total_asset(bank, asset_address),
{
    let ta = pm.spec_total_asset(bank, asset_address);
    let tb = bank.spec_supply(pm.spec_btoken(asset_address)) as int;
    if ta > 0 {
        let product = amount * tb;
        let m = product / ta;
        lemma_fundamental_div_mod(product, ta);
        lemma_mod_division_less_than_divisor(product, ta);
        assert(product == ta * m + product % ta);
        assert(m * ta <= product) by (nonlinear_arith)
            requires product == ta * m + product % ta, product % ta >= 0;
        assert(product < (m + 1) * ta) by (nonlinear_arith)
            requires product == ta * m + product % ta, product % ta < ta;
    }
}

/// Round trip for the sole depositor: lending `amount` into a pool with no
/// holdings and no claims in circulation, then redeeming all `amount`
/// minted claims, pays back exactly `amount`.
pub proof fn lemma_first_deposit_round_trip(pm: PoolManagerContract, b0: TokenBank, b1: TokenBank, caller: AccountId, asset_address: AccountId, amount: Balance)
    requires
        pm.wf(b0),
        amount > 0,
        pm.spec_total_asset(b0, asset_address) == 0,
        bank_supply_zero(pm, b0, asset_address),
        b0.spec_bal(pm.spec_btoken(asset_address), caller) == 0,
        pm.lend_outcome(b0, caller, asset_address, amount) is Ok,
        pm.lend_updates(b0, b1, caller, asset_address, amount),
    ensures
        pm.withdraw_outcome(b1, caller, pm.spec_btoken(asset_address), amount) is Ok,
        pm.withdraw_amount(b1, pm.spec_btoken(asset_address), amount) == amount,
{
    let ct = pm.contract_account;
    let btoken = pm.spec_btoken(asset_address);
    let reserve = pm.spec_reserve(asset_address);
    assert(pm.asset_btoken@.contains_key(asset_address));
    assert(pm.pool_ok(b0, asset_address));
    assert(b0.spec_bal(asset_address, ct) == 0 && b0.spec_bal(asset_address, reserve) == 0);
    // The depositor holds the amount while the pool account holds nothing,
    // so the two accounts are distinct, and so are depositor and reserve.
    assert(b0.spec_bal(asset_address, caller) >= amount);
    assert(caller != ct);
    assert(caller != reserve);
    assert(pm.lend_minted(b0, asset_address, amount) == amount);
    assert(b1.spec_bal(asset_address, ct) == amount);
    assert(b1.spec_bal(asset_address, reserve) == 0);
    assert(pm.spec_total_asset(b1, asset_address) == amount);
    assert(b1.spec_supply(btoken) == amount);
    assert(b1.spec_bal(btoken, caller) == amount);
    assert(pm.spec_asset_of(btoken) == asset_address);
    lemma_div_multiples_vanish(amount as int, amount as int);
    assert(pm.withdraw_amount(b1, btoken, amount) == amount * amount as int / amount as int);
    assert(pm.withdraw_amount(b1, btoken, amount) == amount);
}

/// Whether the claim token of `asset_address`'s pool has no supply.
pub open spec fn bank_supply_zero(pm: PoolManagerContract, bank: TokenBank, asset_address: AccountId) -> bool {
    bank.spec_supply(pm.spec_btoken(asset_address)) == 0
}

/// A successful `borrow` always fixes the principal strictly below the
/// liquidation threshold: the record it stores can never be born
/// liquidatable at its origination price.
pub proof fn lemma_borrow_below_liquidation(pm: PoolManagerContract, bank: TokenBank, caller: AccountId, now: Timestamp, asset_address: AccountId, collateral_address: AccountId, amount: Balance)
    requires
        pm.borrow_fits(bank, caller, asset_address, collateral_address, amount),
        pm.borrow_outcome(bank, caller, asset_address, collateral_address, amount) is Ok,
    ensures
        ({
            let li = pm.borrow_loan_info(caller, now, asset_address, collateral_address, amount);
            li.borrow_amount < li.liquidation_price
        }),
{
    let price = pm.spec_price(collateral_address, asset_address, amount);
    assert(borrow_amt_of(price) < liq_price_of(price));
    assert(price >= 0);
    lemma_div_pos_is_pos(price * 70, 100);
}

/// With the fixed constants, the defensive ratio check never fires once
/// the collateral value reaches twenty units: seventy percent of the value
/// then falls strictly below seventy-five percent of it even after both
/// are rounded down.
pub proof fn lemma_ratio_strict_above_twenty(price: int)
    requires
        price >= 20,
    ensures
        borrow_amt_of(price) < liq_price_of(price),
{
    let q1 = 70 * price / 100;
    let q2 = 75 * price / 100;
    lemma_fundamental_div_mod(70 * price, 100);
    lemma_fundamental_div_mod(75 * price, 100);
    lemma_mod_division_less_than_divisor(70 * price, 100);
    lemma_mod_division_less_than_divisor(75 * price, 100);
    assert(price * 70 == 70 * price) by (nonlinear_arith);
    assert(price * 75 == 75 * price) by (nonlinear_arith);
    if q2 <= q1 {
        assert(75 * price == 100 * q2 + (75 * price) % 100);
        assert(70 * price == 100 * q1 + (70 * price) % 100);
        assert(100 * q2 <= 100 * q1) by (nonlinear_arith)
            requires q2 <= q1;
        assert(5 * price <= 99);
        assert(false);
    }
}

/// Liquidation is never repeatable: after a successful liquidation the
/// record is marked, and a second attempt on the marked record fails with
/// the already-liquidated error, whoever makes it.
pub proof fn lemma_liquidate_twice(pm0: PoolManagerContract, pm1: PoolManagerContract, b1: TokenBank, first_caller: AccountId, second_caller: AccountId, loan_id: LoanId)
    requires
        pm0.loan.spec_has(loan_id),
        pm1.contract_account == pm0.contract_account,
        pm1.loan.loans@ == pm0.loan.loans@.insert(loan_id, (LoanInfo {
            already_liquidated: true,
            ..pm0.loan.spec_loan(loan_id)
        })),
    ensures
        pm1.liquidate_outcome(b1, second_caller, loan_id)
            == Err::<(), PoolManagerError>(PoolManagerError::LoanAlreadyLiquidated),
{
}

/// A partial repayment strictly shrinks the position: the new debt stays
/// below the post-interest amount owed, the collateral strictly decreases
/// whenever the payment is large enough that its proportional share of the
/// collateral is at least one unit, and the interest clock restarts. The
/// amount owed itself always exceeds the pre-interest principal.
pub proof fn lemma_repay_partial_decreases(li: LoanInfo, elapsed: int, repay_amount: Balance, now: Timestamp)
    requires
        elapsed >= 0,
        1 <= repay_amount,
        repay_amount < owed_of(li.borrow_amount, elapsed),
        owed_of(li.borrow_amount, elapsed) <= Balance::MAX,
    ensures
        ({
            let owed = owed_of(li.borrow_amount, elapsed);
            let updated = PoolManagerContract::repay_partial_loan(li, owed, repay_amount, now);
            &&& owed > li.borrow_amount
            &&& updated.borrow_amount < owed
            &&& updated.timestamp == now
            &&& repay_amount * li.collateral_amount >= owed
                ==> updated.collateral_amount < li.collateral_amount
        }),
{
    let owed = owed_of(li.borrow_amount, elapsed);
    let b = li.borrow_amount as int;
    let rate = crate::types::BASIS_POINTS as int + interest_of(elapsed);
    lemma_div_pos_is_pos(crate::types::APY * elapsed, crate::types::YEAR as int);
    assert(interest_of(elapsed) >= 0);
    assert(b * (crate::types::BASIS_POINTS as int) <= b * rate) by (nonlinear_arith)
        requires b >= 0, rate >= crate::types::BASIS_POINTS as int;
    lemma_div_is_ordered(b * (crate::types::BASIS_POINTS as int), b * rate, crate::types::BASIS_POINTS as int);
    lemma_div_multiples_vanish(b, crate::types::BASIS_POINTS as int);
    assert(owed > b);
    let to_return = repay_amount * li.collateral_amount / owed;
    lemma_mul_inequality(repay_amount as int, owed, li.collateral_amount as int);
    lemma_div_is_ordered(
        repay_amount * li.collateral_amount,
        owed * li.collateral_amount,
        owed,
    );
    lemma_div_multiples_vanish(li.collateral_amount as int, owed);
    assert(to_return <= li.collateral_amount);
    if repay_amount * li.collateral_amount >= owed {
        lemma_div_is_ordered(owed, repay_amount * li.collateral_amount, owed);
        lemma_div_multiples_vanish(1, owed);
        assert(to_return >= 1);
    }
}

/// Reads are pure: the registry's read operation takes the registry
/// immutably and its result is a function of the stored state alone, so
/// any two reads of the same id against the same state return identical
/// records.
pub proof fn lemma_get_loan_info_idempotent(registry: LoanContract, loan_id: LoanId, r1: Result<LoanInfo, LoanError>, r2: Result<LoanInfo, LoanError>)
    requires
        r1 == (if !registry.spec_has(loan_id) {
            Err::<LoanInfo, LoanError>(LoanError::LoanNotFound)
        } else {
            Ok::<LoanInfo, LoanError>(registry.spec_loan(loan_id))
        }),
        r2 == (if !registry.spec_has(loan_id) {
            Err::<LoanInfo, LoanError>(LoanError::LoanNotFound)
        } else {
            Ok::<LoanInfo, LoanError>(registry.spec_loan(loan_id))
        }),
    ensures
        r1 == r2,
{
}

} // verus!
