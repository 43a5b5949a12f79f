use liquidity_pool_protocol::ledger::TokenBank;
use liquidity_pool_protocol::manager::PoolManagerContract;
use liquidity_pool_protocol::errors::{LoanError, PoolManagerError};
use liquidity_pool_protocol::types::YEAR;

const ADMIN: u64 = 100;
const ALICE: u64 = 11;
const BOB: u64 = 12;
const BORROWER: u64 = 13;
const LIQUIDATOR: u64 = 14;

/// A bank with a deployed manager and one lendable asset.
fn setup() -> (TokenBank, PoolManagerContract, u64, u64) {
    let mut bank = TokenBank::new();
    let mut pm = PoolManagerContract::new(&mut bank, ADMIN);
    let asset = bank.create_token(ADMIN);
    pm.set_asset_allowance(&mut bank, ADMIN, asset).unwrap();
    let btoken = pm.get_btoken_from_asset(asset).unwrap();
    (bank, pm, asset, btoken)
}

fn fund_and_approve(bank: &mut TokenBank, pm: &PoolManagerContract, token: u64, who: u64, amount: u128) {
    bank.mint(ADMIN, token, who, amount).unwrap();
    bank.approve(who, token, pm.contract_account, amount).unwrap();
}

/// A pool in asset X plus an accepted collateral C valued at two X per
/// unit, with a funded depositor and a funded borrower.
fn setup_with_collateral() -> (TokenBank, PoolManagerContract, u64, u64, u64) {
    let (mut bank, mut pm, asset, btoken) = setup();
    let collateral = bank.create_token(ADMIN);
    pm.set_collateral_allowance(&bank, ADMIN, collateral).unwrap();
    pm.set_conversion_rate(ADMIN, collateral, asset, 2).unwrap();
    fund_and_approve(&mut bank, &pm, asset, ALICE, 1000);
    pm.lend(&mut bank, ALICE, asset, 1000).unwrap();
    fund_and_approve(&mut bank, &pm, collateral, BORROWER, 100);
    (bank, pm, asset, btoken, collateral)
}

#[test]
fn first_depositor_mints_one_to_one() {
    let (mut bank, pm, asset, btoken) = setup();
    fund_and_approve(&mut bank, &pm, asset, ALICE, 1000);
    assert_eq!(pm.lend(&mut bank, ALICE, asset, 1000), Ok(()));
    assert_eq!(bank.balance_of(btoken, ALICE), 1000);
    assert_eq!(bank.total_supply(btoken), 1000);
    assert_eq!(bank.balance_of(asset, ALICE), 0);
    assert_eq!(bank.balance_of(asset, pm.contract_account), 1000);
}

#[test]
fn shared_pool_scenario_keeps_shares_proportional() {
    // Depositor A lends 1000 into an empty pool and mints 1000 claims;
    // B lends 500 and mints 500*1000/1000 = 500; total claims 1500;
    // A then redeems all 1000 claims for 1000*1500/1500 = 1000.
    let (mut bank, pm, asset, btoken) = setup();
    fund_and_approve(&mut bank, &pm, asset, ALICE, 1000);
    fund_and_approve(&mut bank, &pm, asset, BOB, 500);
    assert_eq!(pm.lend(&mut bank, ALICE, asset, 1000), Ok(()));
    assert_eq!(pm.lend(&mut bank, BOB, asset, 500), Ok(()));
    assert_eq!(bank.balance_of(btoken, ALICE), 1000);
    assert_eq!(bank.balance_of(btoken, BOB), 500);
    assert_eq!(bank.total_supply(btoken), 1500);
    assert_eq!(pm.withdraw(&mut bank, ALICE, btoken, 1000), Ok(()));
    assert_eq!(bank.balance_of(asset, ALICE), 1000);
    assert_eq!(bank.balance_of(btoken, ALICE), 0);
    assert_eq!(bank.total_supply(btoken), 500);
    assert_eq!(bank.balance_of(asset, pm.contract_account), 500);
}

#[test]
fn lend_withdraw_round_trip_returns_exact_deposit() {
    let (mut bank, pm, asset, btoken) = setup();
    fund_and_approve(&mut bank, &pm, asset, ALICE, 777);
    assert_eq!(pm.lend(&mut bank, ALICE, asset, 777), Ok(()));
    assert_eq!(pm.withdraw(&mut bank, ALICE, btoken, 777), Ok(()));
    assert_eq!(bank.balance_of(asset, ALICE), 777);
    assert_eq!(bank.balance_of(btoken, ALICE), 0);
    assert_eq!(bank.total_supply(btoken), 0);
}

#[test]
fn lend_rounds_minted_shares_down() {
    // With 15 units in the pool backing 10 claims, a deposit of 7 mints
    // 7*10/15 = 4 claims.
    let (mut bank, pm, asset, btoken) = setup();
    fund_and_approve(&mut bank, &pm, asset, ALICE, 10);
    pm.lend(&mut bank, ALICE, asset, 10).unwrap();
    bank.mint(ADMIN, asset, BOB, 12).unwrap();
    bank.transfer(BOB, asset, pm.contract_account, 5).unwrap();
    bank.approve(BOB, asset, pm.contract_account, 7).unwrap();
    assert_eq!(pm.lend(&mut bank, BOB, asset, 7), Ok(()));
    assert_eq!(bank.balance_of(btoken, BOB), 4);
    assert_eq!(bank.total_supply(btoken), 14);
}

#[test]
fn lend_without_allowance_fails() {
    let (mut bank, pm, asset, _) = setup();
    bank.mint(ADMIN, asset, ALICE, 100).unwrap();
    assert_eq!(
        pm.lend(&mut bank, ALICE, asset, 100),
        Err(PoolManagerError::InsufficientAllowance)
    );
}

#[test]
fn lend_beyond_balance_fails() {
    let (mut bank, pm, asset, _) = setup();
    bank.mint(ADMIN, asset, ALICE, 50).unwrap();
    bank.approve(ALICE, asset, pm.contract_account, 100).unwrap();
    assert_eq!(
        pm.lend(&mut bank, ALICE, asset, 100),
        Err(PoolManagerError::InsufficientBalance)
    );
}

#[test]
fn lend_unknown_asset_fails() {
    let (mut bank, pm, _, _) = setup();
    assert_eq!(
        pm.lend(&mut bank, ALICE, 999, 0),
        Err(PoolManagerError::AssetNotFound)
    );
}

#[test]
fn paused_manager_refuses_deposits_and_loans() {
    let (mut bank, mut pm, asset, _) = setup();
    fund_and_approve(&mut bank, &pm, asset, ALICE, 100);
    assert_eq!(pm.set_paused(ALICE, true), Err(PoolManagerError::AccessControlError));
    assert_eq!(pm.set_paused(ADMIN, true), Ok(()));
    assert_eq!(
        pm.lend(&mut bank, ALICE, asset, 100),
        Err(PoolManagerError::PausableError)
    );
    assert_eq!(
        pm.borrow(&mut bank, BORROWER, 0, asset, asset, 10),
        Err(PoolManagerError::PausableError)
    );
    assert_eq!(pm.set_paused(ADMIN, false), Ok(()));
    assert_eq!(pm.lend(&mut bank, ALICE, asset, 100), Ok(()));
}

#[test]
fn withdraw_unknown_claim_token_fails() {
    let (mut bank, pm, _, _) = setup();
    assert_eq!(
        pm.withdraw(&mut bank, ALICE, 999, 1),
        Err(PoolManagerError::AssetNotFound)
    );
}

#[test]
fn withdraw_cannot_drain_beyond_on_hand_funds() {
    // Lent-out funds count toward the pool's value but cannot be paid
    // out: with 100 on hand and 100 in the reserve sub-account, all 100
    // claims are worth 200, more than the pool can hand over.
    let (mut bank, pm, asset, btoken) = setup();
    fund_and_approve(&mut bank, &pm, asset, ALICE, 100);
    pm.lend(&mut bank, ALICE, asset, 100).unwrap();
    let reserve = *pm.assets_lended.get(&asset).unwrap();
    bank.mint(ADMIN, asset, reserve, 100).unwrap();
    assert_eq!(pm.get_total_asset(&bank, asset), Ok(200));
    assert_eq!(
        pm.withdraw(&mut bank, ALICE, btoken, 100),
        Err(PoolManagerError::InsufficientPoolBalance)
    );
}

#[test]
fn withdraw_without_claims_fails() {
    let (mut bank, pm, asset, btoken) = setup();
    fund_and_approve(&mut bank, &pm, asset, ALICE, 100);
    pm.lend(&mut bank, ALICE, asset, 100).unwrap();
    assert_eq!(
        pm.withdraw(&mut bank, BOB, btoken, 10),
        Err(PoolManagerError::InsufficientBalance)
    );
}

#[test]
fn borrow_opens_a_loan_with_fixed_ratios() {
    // 100 units of collateral at rate 2 are worth 200: the threshold is
    // 150, the principal 140, and the pool mints 140 claims to itself.
    let (mut bank, mut pm, asset, btoken, collateral) = setup_with_collateral();
    assert_eq!(pm.borrow(&mut bank, BORROWER, 5000, asset, collateral, 100), Ok(()));
    let info = pm.loan.get_loan_info(1).unwrap();
    assert_eq!(info.borrower, BORROWER);
    assert_eq!(info.collateral_token, collateral);
    assert_eq!(info.collateral_amount, 100);
    assert_eq!(info.borrow_token, asset);
    assert_eq!(info.borrow_amount, 140);
    assert_eq!(info.liquidation_price, 150);
    assert_eq!(info.timestamp, 5000);
    assert!(!info.already_liquidated);
    assert_eq!(bank.balance_of(asset, BORROWER), 140);
    assert_eq!(bank.balance_of(collateral, pm.contract_account), 100);
    assert_eq!(bank.balance_of(collateral, BORROWER), 0);
    assert_eq!(bank.balance_of(btoken, pm.contract_account), 140);
    assert_eq!(bank.total_supply(btoken), 1140);
}

#[test]
fn borrow_rejects_unaccepted_collateral() {
    let (mut bank, mut pm, asset, _) = setup();
    fund_and_approve(&mut bank, &pm, asset, ALICE, 1000);
    pm.lend(&mut bank, ALICE, asset, 1000).unwrap();
    let stray = bank.create_token(ADMIN);
    fund_and_approve(&mut bank, &pm, stray, BORROWER, 100);
    assert_eq!(
        pm.borrow(&mut bank, BORROWER, 0, asset, stray, 100),
        Err(PoolManagerError::CollateralNotSupported)
    );
}

#[test]
fn borrow_rejects_tiny_collateral_value() {
    // A collateral value of one unit rounds both the threshold and the
    // principal down to zero, and the defensive ratio check fires.
    let (mut bank, mut pm, asset, _, collateral) = setup_with_collateral();
    pm.set_conversion_rate(ADMIN, collateral, asset, 1).unwrap();
    assert_eq!(
        pm.borrow(&mut bank, BORROWER, 0, asset, collateral, 1),
        Err(PoolManagerError::AmountNotSupported)
    );
}

#[test]
fn borrow_without_priced_collateral_fails() {
    // No stored rate means a collateral value of zero.
    let (mut bank, mut pm, asset, _, collateral) = setup_with_collateral();
    let other = bank.create_token(ADMIN);
    pm.set_asset_allowance(&mut bank, ADMIN, other).unwrap();
    fund_and_approve(&mut bank, &pm, collateral, BORROWER, 100);
    assert_eq!(
        pm.borrow(&mut bank, BORROWER, 0, other, collateral, 100),
        Err(PoolManagerError::AmountNotSupported)
    );
}

#[test]
fn borrow_beyond_pool_liquidity_fails() {
    // The pool holds 1000 of the asset; collateral worth 2000 would let
    // the borrower draw 1400.
    let (mut bank, mut pm, asset, _, collateral) = setup_with_collateral();
    fund_and_approve(&mut bank, &pm, collateral, BORROWER, 1000);
    assert_eq!(
        pm.borrow(&mut bank, BORROWER, 0, asset, collateral, 1000),
        Err(PoolManagerError::InsufficientPoolBalance)
    );
}

#[test]
fn borrow_on_unlendable_asset_fails() {
    let (mut bank, mut pm, _, _, collateral) = setup_with_collateral();
    assert_eq!(
        pm.borrow(&mut bank, BORROWER, 0, 999, collateral, 100),
        Err(PoolManagerError::AssetNotFound)
    );
}

#[test]
fn immediate_full_repay_returns_all_collateral() {
    // With no time elapsed the owed amount is 140*10000/10000 + 1 = 141:
    // one unit above the principal, rounded in the protocol's favor.
    let (mut bank, mut pm, asset, btoken, collateral) = setup_with_collateral();
    pm.borrow(&mut bank, BORROWER, 5000, asset, collateral, 100).unwrap();
    bank.mint(ADMIN, asset, BORROWER, 1).unwrap();
    bank.approve(BORROWER, asset, pm.contract_account, 141).unwrap();
    assert_eq!(pm.repay(&mut bank, BORROWER, 5000, 1, 141), Ok(true));
    assert_eq!(
        pm.loan.get_loan_info(1),
        Err(LoanError::LoanNotFound)
    );
    assert_eq!(bank.balance_of(collateral, BORROWER), 100);
    assert_eq!(bank.balance_of(collateral, pm.contract_account), 0);
    assert_eq!(bank.balance_of(asset, BORROWER), 0);
    assert_eq!(bank.balance_of(asset, pm.contract_account), 1001);
    // The principal's claim tokens are burned back out of the pool.
    assert_eq!(bank.balance_of(btoken, pm.contract_account), 0);
    assert_eq!(bank.total_supply(btoken), 1000);
}

#[test]
fn full_repay_after_a_year_charges_ten_percent() {
    // A year of simple interest at the default rate adds ten percent:
    // owed = 140*(10000+1000)/10000 + 1 = 155.
    let (mut bank, mut pm, asset, _, collateral) = setup_with_collateral();
    pm.borrow(&mut bank, BORROWER, 0, asset, collateral, 100).unwrap();
    bank.mint(ADMIN, asset, BORROWER, 15).unwrap();
    bank.approve(BORROWER, asset, pm.contract_account, 155).unwrap();
    assert_eq!(pm.repay(&mut bank, BORROWER, YEAR, 1, 155), Ok(true));
    assert_eq!(bank.balance_of(asset, BORROWER), 0);
    assert_eq!(bank.balance_of(collateral, BORROWER), 100);
}

#[test]
fn partial_repay_shrinks_the_position_and_resets_the_clock() {
    // Against 141 owed, a payment of 50 returns 50*100/141 = 35 units of
    // collateral, leaves a debt of 91 and restarts interest now.
    let (mut bank, mut pm, asset, btoken, collateral) = setup_with_collateral();
    pm.borrow(&mut bank, BORROWER, 5000, asset, collateral, 100).unwrap();
    bank.approve(BORROWER, asset, pm.contract_account, 50).unwrap();
    assert_eq!(pm.repay(&mut bank, BORROWER, 5000, 1, 50), Ok(true));
    let info = pm.loan.get_loan_info(1).unwrap();
    assert_eq!(info.borrow_amount, 91);
    assert_eq!(info.collateral_amount, 65);
    assert_eq!(info.timestamp, 5000);
    assert_eq!(bank.balance_of(collateral, BORROWER), 35);
    assert_eq!(bank.balance_of(collateral, pm.contract_account), 65);
    assert_eq!(bank.balance_of(asset, BORROWER), 90);
    // The one-unit rounding margin is below the old principal, so no
    // interest delta is minted.
    assert_eq!(bank.total_supply(btoken), 1140);
}

#[test]
fn repay_unknown_loan_fails() {
    let (mut bank, mut pm, _, _) = setup();
    assert_eq!(
        pm.repay(&mut bank, BORROWER, 0, 7, 10),
        Err(PoolManagerError::LoanError(LoanError::LoanNotFound))
    );
}

#[test]
fn repay_without_allowance_fails() {
    let (mut bank, mut pm, asset, _, collateral) = setup_with_collateral();
    pm.borrow(&mut bank, BORROWER, 0, asset, collateral, 100).unwrap();
    assert_eq!(
        pm.repay(&mut bank, BORROWER, 0, 1, 10),
        Err(PoolManagerError::InsufficientAllowance)
    );
}

#[test]
fn repay_beyond_balance_fails() {
    let (mut bank, mut pm, asset, _, collateral) = setup_with_collateral();
    pm.borrow(&mut bank, BORROWER, 0, asset, collateral, 100).unwrap();
    bank.approve(BORROWER, asset, pm.contract_account, 1000).unwrap();
    assert_eq!(
        pm.repay(&mut bank, BORROWER, 0, 1, 141),
        Err(PoolManagerError::InsufficientBalance)
    );
}

#[test]
fn full_repay_by_a_stranger_is_refused() {
    let (mut bank, mut pm, asset, _, collateral) = setup_with_collateral();
    pm.borrow(&mut bank, BORROWER, 0, asset, collateral, 100).unwrap();
    fund_and_approve(&mut bank, &pm, asset, BOB, 200);
    assert_eq!(
        pm.repay(&mut bank, BOB, 0, 1, 200),
        Err(PoolManagerError::NotTheLoanOwner)
    );
}

#[test]
fn liquidation_scenario_pays_one_percent_reward() {
    // Collateral pledged at rate 2 is worth 200 against a threshold of
    // 150; when the rate falls to 1 the value drops to 100, the position
    // becomes liquidatable, and the liquidator earns 100*1000/100000 = 1
    // unit of collateral.
    let (mut bank, mut pm, asset, _, collateral) = setup_with_collateral();
    pm.borrow(&mut bank, BORROWER, 0, asset, collateral, 100).unwrap();
    assert_eq!(
        pm.liquidate_loan(&mut bank, LIQUIDATOR, 1),
        Err(PoolManagerError::LoanUnliquidable)
    );
    pm.set_conversion_rate(ADMIN, collateral, asset, 1).unwrap();
    assert_eq!(pm.liquidate_loan(&mut bank, LIQUIDATOR, 1), Ok(()));
    assert_eq!(bank.balance_of(collateral, LIQUIDATOR), 1);
    assert_eq!(bank.balance_of(collateral, pm.contract_account), 99);
    let info = pm.loan.get_loan_info(1).unwrap();
    assert!(info.already_liquidated);
    assert_eq!(
        pm.liquidate_loan(&mut bank, LIQUIDATOR, 1),
        Err(PoolManagerError::LoanAlreadyLiquidated)
    );
}

#[test]
fn liquidate_unknown_loan_fails() {
    let (mut bank, mut pm, _, _) = setup();
    assert_eq!(
        pm.liquidate_loan(&mut bank, LIQUIDATOR, 3),
        Err(PoolManagerError::LoanError(LoanError::LoanNotFound))
    );
}

#[test]
fn liquidated_loan_is_cleaned_up_by_repay() {
    let (mut bank, mut pm, asset, _, collateral) = setup_with_collateral();
    pm.borrow(&mut bank, BORROWER, 0, asset, collateral, 100).unwrap();
    pm.set_conversion_rate(ADMIN, collateral, asset, 0).unwrap();
    pm.liquidate_loan(&mut bank, LIQUIDATOR, 1).unwrap();
    // Only the borrower may clear the dead record, and no funds move.
    assert_eq!(
        pm.repay(&mut bank, BOB, 0, 1, 0),
        Err(PoolManagerError::NotTheLoanOwner)
    );
    let borrower_asset = bank.balance_of(asset, BORROWER);
    assert_eq!(pm.repay(&mut bank, BORROWER, 0, 1, 0), Ok(false));
    assert_eq!(pm.loan.get_loan_info(1), Err(LoanError::LoanNotFound));
    assert_eq!(bank.balance_of(asset, BORROWER), borrower_asset);
}

#[test]
fn conversion_rates_are_directional_and_admin_gated() {
    let (mut bank, mut pm, _, _) = setup();
    let c1 = bank.create_token(ADMIN);
    let c2 = bank.create_token(ADMIN);
    assert_eq!(
        pm.set_conversion_rate(ALICE, c1, c2, 3),
        Err(PoolManagerError::AccessControlError)
    );
    assert_eq!(pm.set_conversion_rate(ADMIN, c1, c2, 3), Ok(()));
    assert_eq!(pm.get_conversion_rate(c1, c2, 10), 30);
    assert_eq!(pm.get_conversion_rate(c2, c1, 10), 0);
}

#[test]
fn pool_management_is_admin_gated() {
    let (mut bank, mut pm, asset, _) = setup();
    let other = bank.create_token(ADMIN);
    assert_eq!(
        pm.set_asset_allowance(&mut bank, ALICE, other),
        Err(PoolManagerError::AccessControlError)
    );
    assert_eq!(
        pm.set_collateral_allowance(&bank, ALICE, other),
        Err(PoolManagerError::AccessControlError)
    );
    assert_eq!(
        pm.set_asset_disallowance(&bank, ALICE, asset),
        Err(PoolManagerError::AccessControlError)
    );
    assert_eq!(
        pm.set_collateral_disallowance(&bank, ALICE, other),
        Err(PoolManagerError::AccessControlError)
    );
}

#[test]
fn an_asset_gets_only_one_pool() {
    let (mut bank, mut pm, asset, _) = setup();
    assert_eq!(
        pm.set_asset_allowance(&mut bank, ADMIN, asset),
        Err(PoolManagerError::AssetAlreadySupported)
    );
}

#[test]
fn pool_needs_an_existing_token() {
    let (mut bank, mut pm, _, _) = setup();
    assert_eq!(
        pm.set_asset_allowance(&mut bank, ADMIN, 999),
        Err(PoolManagerError::AssetNotFound)
    );
    assert_eq!(
        pm.set_collateral_allowance(&bank, ADMIN, 999),
        Err(PoolManagerError::AssetNotFound)
    );
}

#[test]
fn collateral_acceptance_toggles_once_each_way() {
    let (mut bank, mut pm, _, _) = setup();
    let coll = bank.create_token(ADMIN);
    assert!(!pm.get_collateral_acceptance(coll));
    assert_eq!(pm.set_collateral_allowance(&bank, ADMIN, coll), Ok(()));
    assert!(pm.get_collateral_acceptance(coll));
    assert_eq!(
        pm.set_collateral_allowance(&bank, ADMIN, coll),
        Err(PoolManagerError::CollateralAlreadySupported)
    );
    assert_eq!(pm.set_collateral_disallowance(&bank, ADMIN, coll), Ok(()));
    assert!(!pm.get_collateral_acceptance(coll));
    assert_eq!(
        pm.set_collateral_disallowance(&bank, ADMIN, coll),
        Err(PoolManagerError::CollateralAlreadyUnsupported)
    );
}

#[test]
fn only_an_empty_pool_can_be_retired() {
    let (mut bank, mut pm, asset, _) = setup();
    fund_and_approve(&mut bank, &pm, asset, ALICE, 10);
    pm.lend(&mut bank, ALICE, asset, 10).unwrap();
    assert_eq!(
        pm.set_asset_disallowance(&bank, ADMIN, asset),
        Err(PoolManagerError::PoolIsNotEmpty)
    );
    let btoken = pm.get_btoken_from_asset(asset).unwrap();
    pm.withdraw(&mut bank, ALICE, btoken, 10).unwrap();
    assert_eq!(pm.set_asset_disallowance(&bank, ADMIN, asset), Ok(()));
    assert!(!pm.get_asset_acceptance(asset));
    assert_eq!(
        pm.get_btoken_from_asset(asset),
        Err(PoolManagerError::AssetNotFound)
    );
    assert_eq!(
        pm.set_asset_disallowance(&bank, ADMIN, asset),
        Err(PoolManagerError::AssetNotFound)
    );
}

#[test]
fn pool_lookups_run_both_ways() {
    let (_, pm, asset, btoken) = setup();
    assert_eq!(pm.get_btoken_from_asset(asset), Ok(btoken));
    assert_eq!(pm.get_asset_from_btoken(btoken), Ok(asset));
    assert_eq!(pm.get_asset_from_btoken(asset), Err(PoolManagerError::AssetNotFound));
    assert!(pm.get_asset_acceptance(asset));
    assert!(!pm.get_asset_acceptance(btoken));
}

#[test]
fn total_asset_counts_on_hand_and_lent_out_funds() {
    let (mut bank, pm, asset, btoken) = setup();
    assert_eq!(pm.get_total_asset(&bank, asset), Ok(0));
    assert_eq!(pm.get_total_btoken(&bank, asset), Ok(0));
    fund_and_approve(&mut bank, &pm, asset, ALICE, 300);
    pm.lend(&mut bank, ALICE, asset, 300).unwrap();
    assert_eq!(pm.get_total_asset(&bank, asset), Ok(300));
    assert_eq!(pm.get_total_btoken(&bank, asset), Ok(300));
    assert_eq!(pm.get_total_asset(&bank, btoken), Err(PoolManagerError::AssetNotFound));
    assert_eq!(pm.get_total_btoken(&bank, btoken), Err(PoolManagerError::AssetNotFound));
}

#[test]
fn loan_ids_grow_across_borrows() {
    let (mut bank, mut pm, asset, _, collateral) = setup_with_collateral();
    fund_and_approve(&mut bank, &pm, collateral, BOB, 10);
    pm.borrow(&mut bank, BORROWER, 0, asset, collateral, 100).unwrap();
    pm.borrow(&mut bank, BOB, 0, asset, collateral, 10).unwrap();
    assert_eq!(pm.loan.last_loan_id, 2);
    assert_eq!(pm.loan.get_loan_info(2).unwrap().borrower, BOB);
    assert_eq!(pm.loan.get_loan_info(2).unwrap().collateral_amount, 10);
}
