use liquidity_pool_protocol::ledger::TokenBank;
use liquidity_pool_protocol::errors::TokenError;

const OWNER: u64 = 50;
const ALICE: u64 = 11;
const BOB: u64 = 12;

#[test]
fn create_token_starts_empty() {
    let mut bank = TokenBank::new();
    let token = bank.create_token(OWNER);
    assert_eq!(token, 1);
    assert!(bank.has_token(token));
    assert_eq!(bank.owner_of(token), OWNER);
    assert_eq!(bank.total_supply(token), 0);
    assert_eq!(bank.balance_of(token, ALICE), 0);
    assert_eq!(bank.allowance(token, ALICE, BOB), 0);
}

#[test]
fn fresh_ids_are_distinct() {
    let mut bank = TokenBank::new();
    let t1 = bank.create_token(OWNER);
    let account = bank.fresh_account();
    let t2 = bank.create_token(OWNER);
    assert!(t1 != account && account != t2 && t1 != t2);
}

#[test]
fn mint_adds_to_balance_and_supply() {
    let mut bank = TokenBank::new();
    let token = bank.create_token(OWNER);
    assert_eq!(bank.mint(OWNER, token, ALICE, 700), Ok(()));
    assert_eq!(bank.mint(OWNER, token, BOB, 300), Ok(()));
    assert_eq!(bank.balance_of(token, ALICE), 700);
    assert_eq!(bank.balance_of(token, BOB), 300);
    assert_eq!(bank.total_supply(token), 1000);
}

#[test]
fn mint_requires_owner() {
    let mut bank = TokenBank::new();
    let token = bank.create_token(OWNER);
    assert_eq!(bank.mint(ALICE, token, ALICE, 5), Err(TokenError::NotOwner));
    assert_eq!(bank.balance_of(token, ALICE), 0);
}

#[test]
fn mint_on_unknown_token_fails() {
    let mut bank = TokenBank::new();
    assert_eq!(bank.mint(OWNER, 77, ALICE, 5), Err(TokenError::TokenNotFound));
}

#[test]
fn mint_beyond_maximum_overflows() {
    let mut bank = TokenBank::new();
    let token = bank.create_token(OWNER);
    assert_eq!(bank.mint(OWNER, token, ALICE, u128::MAX), Ok(()));
    assert_eq!(bank.mint(OWNER, token, BOB, 1), Err(TokenError::Overflow));
    assert_eq!(bank.total_supply(token), u128::MAX);
}

#[test]
fn burn_removes_balance_and_supply() {
    let mut bank = TokenBank::new();
    let token = bank.create_token(OWNER);
    bank.mint(OWNER, token, ALICE, 100).unwrap();
    assert_eq!(bank.burn(OWNER, token, ALICE, 40), Ok(()));
    assert_eq!(bank.balance_of(token, ALICE), 60);
    assert_eq!(bank.total_supply(token), 60);
}

#[test]
fn burn_more_than_balance_fails() {
    let mut bank = TokenBank::new();
    let token = bank.create_token(OWNER);
    bank.mint(OWNER, token, ALICE, 100).unwrap();
    assert_eq!(bank.burn(OWNER, token, ALICE, 101), Err(TokenError::InsufficientBalance));
    assert_eq!(bank.balance_of(token, ALICE), 100);
}

#[test]
fn burn_requires_owner() {
    let mut bank = TokenBank::new();
    let token = bank.create_token(OWNER);
    bank.mint(OWNER, token, ALICE, 100).unwrap();
    assert_eq!(bank.burn(ALICE, token, ALICE, 1), Err(TokenError::NotOwner));
}

#[test]
fn transfer_moves_funds() {
    let mut bank = TokenBank::new();
    let token = bank.create_token(OWNER);
    bank.mint(OWNER, token, ALICE, 100).unwrap();
    assert_eq!(bank.transfer(ALICE, token, BOB, 30), Ok(()));
    assert_eq!(bank.balance_of(token, ALICE), 70);
    assert_eq!(bank.balance_of(token, BOB), 30);
    assert_eq!(bank.total_supply(token), 100);
}

#[test]
fn transfer_to_self_changes_nothing() {
    let mut bank = TokenBank::new();
    let token = bank.create_token(OWNER);
    bank.mint(OWNER, token, ALICE, 100).unwrap();
    assert_eq!(bank.transfer(ALICE, token, ALICE, 60), Ok(()));
    assert_eq!(bank.balance_of(token, ALICE), 100);
}

#[test]
fn transfer_more_than_balance_fails() {
    let mut bank = TokenBank::new();
    let token = bank.create_token(OWNER);
    bank.mint(OWNER, token, ALICE, 100).unwrap();
    assert_eq!(bank.transfer(ALICE, token, BOB, 101), Err(TokenError::InsufficientBalance));
}

#[test]
fn transfer_on_unknown_token_fails() {
    let mut bank = TokenBank::new();
    assert_eq!(bank.transfer(ALICE, 9, BOB, 0), Err(TokenError::TokenNotFound));
}

#[test]
fn approve_sets_allowance() {
    let mut bank = TokenBank::new();
    let token = bank.create_token(OWNER);
    assert_eq!(bank.approve(ALICE, token, BOB, 250), Ok(()));
    assert_eq!(bank.allowance(token, ALICE, BOB), 250);
    assert_eq!(bank.allowance(token, BOB, ALICE), 0);
}

#[test]
fn transfer_from_draws_down_allowance() {
    let mut bank = TokenBank::new();
    let token = bank.create_token(OWNER);
    bank.mint(OWNER, token, ALICE, 100).unwrap();
    bank.approve(ALICE, token, BOB, 80).unwrap();
    assert_eq!(bank.transfer_from(BOB, token, ALICE, BOB, 30), Ok(()));
    assert_eq!(bank.balance_of(token, ALICE), 70);
    assert_eq!(bank.balance_of(token, BOB), 30);
    assert_eq!(bank.allowance(token, ALICE, BOB), 50);
}

#[test]
fn transfer_from_without_allowance_fails() {
    let mut bank = TokenBank::new();
    let token = bank.create_token(OWNER);
    bank.mint(OWNER, token, ALICE, 100).unwrap();
    assert_eq!(
        bank.transfer_from(BOB, token, ALICE, BOB, 1),
        Err(TokenError::InsufficientAllowance)
    );
}

#[test]
fn transfer_from_beyond_balance_fails() {
    let mut bank = TokenBank::new();
    let token = bank.create_token(OWNER);
    bank.mint(OWNER, token, ALICE, 10).unwrap();
    bank.approve(ALICE, token, BOB, 500).unwrap();
    assert_eq!(
        bank.transfer_from(BOB, token, ALICE, BOB, 11),
        Err(TokenError::InsufficientBalance)
    );
    assert_eq!(bank.allowance(token, ALICE, BOB), 500);
}
