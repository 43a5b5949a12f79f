use std::collections::HashMap;
use liquidity_pool_protocol::loan::{LoanContract, LoanInfo};
use liquidity_pool_protocol::errors::LoanError;

const MANAGER: u64 = 1;
const BORROWER: u64 = 21;
const STRANGER: u64 = 22;

fn sample_loan(borrower: u64) -> LoanInfo {
    LoanInfo {
        borrower,
        collateral_token: 5,
        collateral_amount: 100,
        borrow_token: 6,
        borrow_amount: 140,
        liquidation_price: 150,
        timestamp: 1000,
        already_liquidated: false,
    }
}

#[test]
fn ids_start_at_one_and_increase() {
    let mut reg = LoanContract::new(MANAGER);
    assert_eq!(reg.create_loan(MANAGER, sample_loan(BORROWER)), Ok(1));
    assert_eq!(reg.create_loan(MANAGER, sample_loan(STRANGER)), Ok(2));
    assert_eq!(reg.create_loan(MANAGER, sample_loan(BORROWER)), Ok(3));
    assert_eq!(reg.last_loan_id, 3);
}

#[test]
fn get_loan_info_returns_stored_record() {
    let mut reg = LoanContract::new(MANAGER);
    let info = sample_loan(BORROWER);
    let id = reg.create_loan(MANAGER, info).unwrap();
    assert_eq!(reg.get_loan_info(id), Ok(info));
}

#[test]
fn get_loan_info_missing_id_fails() {
    let reg = LoanContract::new(MANAGER);
    assert_eq!(reg.get_loan_info(1), Err(LoanError::LoanNotFound));
}

#[test]
fn get_loan_info_is_idempotent() {
    let mut reg = LoanContract::new(MANAGER);
    let id = reg.create_loan(MANAGER, sample_loan(BORROWER)).unwrap();
    let first = reg.get_loan_info(id);
    let second = reg.get_loan_info(id);
    let third = reg.get_loan_info(id);
    assert_eq!(first, second);
    assert_eq!(second, third);
}

#[test]
fn create_requires_manager() {
    let mut reg = LoanContract::new(MANAGER);
    assert_eq!(
        reg.create_loan(STRANGER, sample_loan(BORROWER)),
        Err(LoanError::NotAuthorized)
    );
}

#[test]
fn create_stops_at_id_ceiling() {
    let mut reg = LoanContract::new(MANAGER);
    reg.last_loan_id = u8::MAX;
    assert_eq!(
        reg.create_loan(MANAGER, sample_loan(BORROWER)),
        Err(LoanError::LoanIdExhausted)
    );
}

#[test]
fn create_rejects_a_corrupt_counter() {
    // A record sitting above the counter can only mean corrupted state;
    // allocation refuses to overwrite it.
    let mut loans = HashMap::new();
    loans.insert(1u8, sample_loan(BORROWER));
    let mut reg = LoanContract {
        manager_account: MANAGER,
        last_loan_id: 0,
        loans,
    };
    assert_eq!(
        reg.create_loan(MANAGER, sample_loan(STRANGER)),
        Err(LoanError::LoanAlreadyExists)
    );
}

#[test]
fn delete_removes_record_for_owner() {
    let mut reg = LoanContract::new(MANAGER);
    let id = reg.create_loan(MANAGER, sample_loan(BORROWER)).unwrap();
    assert_eq!(reg.delete_loan(MANAGER, BORROWER, id), Ok(()));
    assert_eq!(reg.get_loan_info(id), Err(LoanError::LoanNotFound));
    // Ids are never reused: the next loan gets a fresh id.
    assert_eq!(reg.create_loan(MANAGER, sample_loan(BORROWER)), Ok(2));
}

#[test]
fn delete_rejects_non_owner() {
    let mut reg = LoanContract::new(MANAGER);
    let id = reg.create_loan(MANAGER, sample_loan(BORROWER)).unwrap();
    assert_eq!(
        reg.delete_loan(MANAGER, STRANGER, id),
        Err(LoanError::NotTheLoanOwner)
    );
    assert!(reg.get_loan_info(id).is_ok());
}

#[test]
fn delete_missing_id_fails() {
    let mut reg = LoanContract::new(MANAGER);
    assert_eq!(reg.delete_loan(MANAGER, BORROWER, 9), Err(LoanError::LoanNotFound));
}

#[test]
fn update_overwrites_only_the_three_mutable_fields() {
    let mut reg = LoanContract::new(MANAGER);
    let id = reg.create_loan(MANAGER, sample_loan(BORROWER)).unwrap();
    assert_eq!(reg.update_loan(MANAGER, id, 91, 65, 2000), Ok(()));
    let updated = reg.get_loan_info(id).unwrap();
    assert_eq!(updated.borrow_amount, 91);
    assert_eq!(updated.collateral_amount, 65);
    assert_eq!(updated.timestamp, 2000);
    assert_eq!(updated.borrower, BORROWER);
    assert_eq!(updated.collateral_token, 5);
    assert_eq!(updated.borrow_token, 6);
    assert_eq!(updated.liquidation_price, 150);
    assert!(!updated.already_liquidated);
}

#[test]
fn update_missing_id_fails() {
    let mut reg = LoanContract::new(MANAGER);
    assert_eq!(reg.update_loan(MANAGER, 3, 1, 1, 1), Err(LoanError::LoanNotFound));
}

#[test]
fn update_requires_manager() {
    let mut reg = LoanContract::new(MANAGER);
    let id = reg.create_loan(MANAGER, sample_loan(BORROWER)).unwrap();
    assert_eq!(
        reg.update_loan(STRANGER, id, 1, 1, 1),
        Err(LoanError::NotAuthorized)
    );
}

#[test]
fn liquidate_sets_the_terminal_flag() {
    let mut reg = LoanContract::new(MANAGER);
    let id = reg.create_loan(MANAGER, sample_loan(BORROWER)).unwrap();
    assert_eq!(reg.liquidate_loan(MANAGER, id), Ok(()));
    let info = reg.get_loan_info(id).unwrap();
    assert!(info.already_liquidated);
    assert_eq!(info.borrow_amount, 140);
    assert_eq!(info.collateral_amount, 100);
}

#[test]
fn liquidate_missing_id_fails() {
    let mut reg = LoanContract::new(MANAGER);
    assert_eq!(reg.liquidate_loan(MANAGER, 4), Err(LoanError::LoanNotFound));
}

#[test]
fn liquidate_requires_manager() {
    let mut reg = LoanContract::new(MANAGER);
    let id = reg.create_loan(MANAGER, sample_loan(BORROWER)).unwrap();
    assert_eq!(reg.liquidate_loan(STRANGER, id), Err(LoanError::NotAuthorized));
}
