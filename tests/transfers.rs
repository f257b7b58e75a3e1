use casper_core::amount::U512;
use casper_core::transfer::{ExecutionResult, PurseBalances, TransferError, TransferRecord};

const INITIAL_BALANCE: u64 = 100_000_000_000;
const TRANSFER_COST: u64 = 10_000;
const DEPLOY: [u8; 32] = [3u8; 32];

fn two_purses(source: u64, target: u64) -> PurseBalances {
    PurseBalances::new(vec![U512::from_u64(source), U512::from_u64(target)])
}

#[test]
fn ee_1160_wasmless_transfer_should_empty_account() {
    let mut ledger = two_purses(INITIAL_BALANCE, 0);
    let amount = U512::from_u64(INITIAL_BALANCE - TRANSFER_COST);
    let result = ledger.execute_transfer(0, 1, amount, U512::from_u64(TRANSFER_COST), None, DEPLOY);
    assert!(result.as_error().is_none(), "{:?}", result);
    assert!(!result.transfers().is_empty());
    assert_eq!(ledger.balance(0), Some(U512::zero()));
    assert_eq!(ledger.balance(1), Some(amount));
}

#[test]
fn ee_1160_transfer_larger_than_balance_should_fail() {
    let mut ledger = two_purses(INITIAL_BALANCE, 0);
    let before = ledger.balance(0);
    let amount = U512::from_u64(INITIAL_BALANCE - TRANSFER_COST + 1);
    let result = ledger.execute_transfer(0, 1, amount, U512::from_u64(TRANSFER_COST), None, DEPLOY);
    assert_eq!(ledger.balance(0), before);
    assert!(result.as_error().is_some(), "Expected error but last result is {:?}", result);
    assert!(result.transfers().is_empty(), "Expected empty list of transfers");
    assert_eq!(result.as_error(), Some(TransferError::InsufficientPayment));
}

#[test]
fn ee_1160_large_wasmless_transfer_should_avoid_overflow() {
    let mut ledger = two_purses(INITIAL_BALANCE, 0);
    let before = ledger.balance(0);
    let result = ledger.execute_transfer(0, 1, U512::max_value(), U512::from_u64(TRANSFER_COST), None, DEPLOY);
    assert_eq!(ledger.balance(0), before);
    assert!(result.as_error().is_some(), "Expected error but last result is {:?}", result);
    assert!(result.transfers().is_empty(), "Expected empty list of transfers");
}

#[test]
fn exact_transfer_debits_amount_and_cost() {
    let mut ledger = two_purses(1000, 5);
    let result = ledger.execute_transfer(0, 1, U512::from_u64(100), U512::from_u64(10), Some(7), DEPLOY);
    assert_eq!(
        result,
        ExecutionResult::Success {
            transfers: vec![TransferRecord { deploy_hash: DEPLOY, source: 0, target: 1, amount: U512::from_u64(100), id: Some(7) }],
            cost: U512::from_u64(10),
        }
    );
    assert_eq!(ledger.balance(0), Some(U512::from_u64(890)));
    assert_eq!(ledger.balance(1), Some(U512::from_u64(105)));
}

#[test]
fn max_amount_fails_with_overflow_and_changes_nothing() {
    let mut ledger = two_purses(1000, 5);
    let result = ledger.execute_transfer(0, 1, U512::max_value(), U512::from_u64(10), None, DEPLOY);
    assert_eq!(result.as_error(), Some(TransferError::Overflow));
    assert_eq!(result.transfers().len(), 0);
    assert_eq!(ledger.balance(0), Some(U512::from_u64(1000)));
    assert_eq!(ledger.balance(1), Some(U512::from_u64(5)));
}

#[test]
fn max_amount_with_zero_cost_is_insufficient_not_overflow() {
    let mut ledger = two_purses(1000, 5);
    let result = ledger.execute_transfer(0, 1, U512::max_value(), U512::zero(), None, DEPLOY);
    assert_eq!(result.as_error(), Some(TransferError::InsufficientPayment));
}

#[test]
fn transfer_of_whole_balance_leaves_zero() {
    let mut ledger = two_purses(1000, 0);
    let result = ledger.execute_transfer(0, 1, U512::from_u64(990), U512::from_u64(10), None, DEPLOY);
    assert!(result.as_error().is_none());
    assert_eq!(result.transfers().len(), 1);
    assert_eq!(ledger.balance(0), Some(U512::zero()));
    assert_eq!(ledger.balance(1), Some(U512::from_u64(990)));
}

#[test]
fn one_more_than_balance_is_insufficient() {
    let mut ledger = two_purses(1000, 0);
    let result = ledger.execute_transfer(0, 1, U512::from_u64(991), U512::from_u64(10), None, DEPLOY);
    assert_eq!(result.as_error(), Some(TransferError::InsufficientPayment));
    assert_eq!(ledger.balance(0), Some(U512::from_u64(1000)));
    assert_eq!(ledger.balance(1), Some(U512::zero()));
}

#[test]
fn crediting_past_the_range_fails_with_overflow() {
    let mut ledger = PurseBalances::new(vec![U512::from_u64(1000), U512::max_value()]);
    let result = ledger.execute_transfer(0, 1, U512::from_u64(1), U512::from_u64(10), None, DEPLOY);
    assert_eq!(result.as_error(), Some(TransferError::Overflow));
    assert_eq!(ledger.balance(0), Some(U512::from_u64(1000)));
    assert_eq!(ledger.balance(1), Some(U512::max_value()));
}

#[test]
fn missing_purse_is_refused() {
    let mut ledger = two_purses(1000, 0);
    let result = ledger.execute_transfer(0, 2, U512::from_u64(1), U512::from_u64(1), None, DEPLOY);
    assert_eq!(result.as_error(), Some(TransferError::PurseNotFound));
    assert_eq!(ledger.len(), 2);
    assert_eq!(ledger.balance(2), None);
}

#[test]
fn transfer_to_self_only_burns_the_cost() {
    let mut ledger = two_purses(1000, 0);
    let result = ledger.execute_transfer(0, 0, U512::from_u64(500), U512::from_u64(10), None, DEPLOY);
    assert!(result.as_error().is_none());
    assert_eq!(ledger.balance(0), Some(U512::from_u64(990)));
}
