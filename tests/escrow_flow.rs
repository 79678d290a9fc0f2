use escrow::instructions::{make, refund, take};
use escrow::ledger::Ledger;
use escrow::model::{Escrow, EscrowError, EscrowRecord};

const MAKER: u64 = 7;
const TAKER: u64 = 8;
const STRANGER: u64 = 9;
const ASSET_X: u64 = 100;
const ASSET_Y: u64 = 200;

fn funded(maker_x: u64, taker_y: u64) -> Ledger {
    let mut l = Ledger::new();
    assert_eq!(l.credit(MAKER, ASSET_X, maker_x), Ok(()));
    assert_eq!(l.credit(TAKER, ASSET_Y, taker_y), Ok(()));
    l
}

#[test]
fn scenario_a_take_swaps_assets() {
    let mut l = funded(150, 80);
    assert_eq!(make(&mut l, MAKER, 1, 100, 50, ASSET_X, ASSET_Y), Ok(()));
    assert_eq!(take(&mut l, TAKER, MAKER, 1), Ok(()));
    assert_eq!(l.balance(MAKER, ASSET_Y), 50);
    assert_eq!(l.balance(TAKER, ASSET_X), 100);
    assert_eq!(l.balance(TAKER, ASSET_Y), 30);
    assert_eq!(l.balance(MAKER, ASSET_X), 50);
    assert_eq!(l.escrow(MAKER, 1), None);
}

#[test]
fn scenario_b_cancel_restores_deposit() {
    let mut l = funded(150, 80);
    assert_eq!(make(&mut l, MAKER, 1, 100, 50, ASSET_X, ASSET_Y), Ok(()));
    assert_eq!(refund(&mut l, MAKER, MAKER, 1), Ok(()));
    assert_eq!(l.balance(MAKER, ASSET_X), 150);
    assert_eq!(l.escrow(MAKER, 1), None);
    assert_eq!(take(&mut l, TAKER, MAKER, 1), Err(EscrowError::NotFound));
    assert_eq!(l.balance(TAKER, ASSET_Y), 80);
    assert_eq!(l.balance(MAKER, ASSET_Y), 0);
}

#[test]
fn make_locks_deposit_in_vault() {
    let mut l = funded(150, 0);
    assert_eq!(make(&mut l, MAKER, 3, 120, 9, ASSET_X, ASSET_Y), Ok(()));
    let expected = Escrow {
        record: EscrowRecord {
            maker: MAKER,
            seed: 3,
            deposit_asset: ASSET_X,
            receive_asset: ASSET_Y,
            receive_amount: 9,
        },
        vault: 120,
    };
    assert_eq!(l.escrow(MAKER, 3), Some(expected));
    assert_eq!(l.balance(MAKER, ASSET_X), 30);
}

#[test]
fn make_whole_balance() {
    let mut l = funded(150, 0);
    assert_eq!(make(&mut l, MAKER, 3, 150, 0, ASSET_X, ASSET_Y), Ok(()));
    assert_eq!(l.balance(MAKER, ASSET_X), 0);
    assert_eq!(l.escrow(MAKER, 3).map(|e| e.vault), Some(150));
}

#[test]
fn take_then_take_or_refund_not_found() {
    let mut l = funded(150, 80);
    assert_eq!(make(&mut l, MAKER, 1, 100, 50, ASSET_X, ASSET_Y), Ok(()));
    assert_eq!(take(&mut l, TAKER, MAKER, 1), Ok(()));
    assert_eq!(take(&mut l, TAKER, MAKER, 1), Err(EscrowError::NotFound));
    assert_eq!(take(&mut l, STRANGER, MAKER, 1), Err(EscrowError::NotFound));
    assert_eq!(refund(&mut l, MAKER, MAKER, 1), Err(EscrowError::NotFound));
    assert_eq!(l.balance(MAKER, ASSET_X), 50);
    assert_eq!(l.balance(TAKER, ASSET_X), 100);
}

#[test]
fn refund_by_non_maker_unauthorized() {
    let mut l = funded(150, 80);
    assert_eq!(make(&mut l, MAKER, 1, 100, 50, ASSET_X, ASSET_Y), Ok(()));
    let before = l.escrow(MAKER, 1);
    assert_eq!(refund(&mut l, TAKER, MAKER, 1), Err(EscrowError::Unauthorized));
    assert_eq!(refund(&mut l, STRANGER, MAKER, 1), Err(EscrowError::Unauthorized));
    assert_eq!(l.escrow(MAKER, 1), before);
    assert_eq!(l.balance(MAKER, ASSET_X), 50);
    assert_eq!(l.balance(TAKER, ASSET_X), 0);
}

#[test]
fn make_then_refund_round_trip() {
    let mut l = funded(1000, 0);
    assert_eq!(make(&mut l, MAKER, 42, 999, 5, ASSET_X, ASSET_Y), Ok(()));
    assert_eq!(l.balance(MAKER, ASSET_X), 1);
    assert_eq!(refund(&mut l, MAKER, MAKER, 42), Ok(()));
    assert_eq!(l.balance(MAKER, ASSET_X), 1000);
    assert_eq!(l.escrow(MAKER, 42), None);
}

#[test]
fn second_make_same_seed_already_exists() {
    let mut l = funded(300, 0);
    assert_eq!(make(&mut l, MAKER, 5, 100, 1, ASSET_X, ASSET_Y), Ok(()));
    assert_eq!(make(&mut l, MAKER, 5, 100, 1, ASSET_X, ASSET_Y), Err(EscrowError::AlreadyExists));
    assert_eq!(make(&mut l, MAKER, 5, 0, 1, ASSET_X, ASSET_Y), Err(EscrowError::AlreadyExists));
    assert_eq!(l.balance(MAKER, ASSET_X), 200);
    assert_eq!(l.escrow(MAKER, 5).map(|e| e.vault), Some(100));
    assert_eq!(make(&mut l, MAKER, 6, 100, 1, ASSET_X, ASSET_Y), Ok(()));
    assert_eq!(l.balance(MAKER, ASSET_X), 100);
}

#[test]
fn reopen_after_close_is_fresh_make() {
    let mut l = funded(300, 0);
    assert_eq!(make(&mut l, MAKER, 5, 100, 1, ASSET_X, ASSET_Y), Ok(()));
    assert_eq!(refund(&mut l, MAKER, MAKER, 5), Ok(()));
    assert_eq!(make(&mut l, MAKER, 5, 40, 2, ASSET_X, ASSET_Y), Ok(()));
    assert_eq!(l.escrow(MAKER, 5).map(|e| (e.vault, e.record.receive_amount)), Some((40, 2)));
}

#[test]
fn make_zero_deposit_invalid_amount() {
    let mut l = funded(300, 0);
    assert_eq!(make(&mut l, MAKER, 1, 0, 1, ASSET_X, ASSET_Y), Err(EscrowError::InvalidAmount));
    assert_eq!(l.escrow(MAKER, 1), None);
    assert_eq!(l.balance(MAKER, ASSET_X), 300);
}

#[test]
fn make_insufficient_funds() {
    let mut l = funded(99, 0);
    assert_eq!(make(&mut l, MAKER, 1, 100, 1, ASSET_X, ASSET_Y), Err(EscrowError::InsufficientFunds));
    assert_eq!(make(&mut l, STRANGER, 1, 1, 1, ASSET_X, ASSET_Y), Err(EscrowError::InsufficientFunds));
    assert_eq!(l.escrow(MAKER, 1), None);
    assert_eq!(l.balance(MAKER, ASSET_X), 99);
}

#[test]
fn take_insufficient_funds_no_partial_transfer() {
    let mut l = funded(150, 49);
    assert_eq!(make(&mut l, MAKER, 1, 100, 50, ASSET_X, ASSET_Y), Ok(()));
    assert_eq!(take(&mut l, TAKER, MAKER, 1), Err(EscrowError::InsufficientFunds));
    assert_eq!(l.balance(TAKER, ASSET_Y), 49);
    assert_eq!(l.balance(MAKER, ASSET_Y), 0);
    assert_eq!(l.balance(TAKER, ASSET_X), 0);
    assert_eq!(l.escrow(MAKER, 1).map(|e| e.vault), Some(100));
}

#[test]
fn refund_missing_not_found() {
    let mut l = funded(150, 0);
    assert_eq!(refund(&mut l, MAKER, MAKER, 1), Err(EscrowError::NotFound));
    assert_eq!(make(&mut l, MAKER, 1, 100, 50, ASSET_X, ASSET_Y), Ok(()));
    assert_eq!(refund(&mut l, MAKER, MAKER, 2), Err(EscrowError::NotFound));
    assert_eq!(refund(&mut l, TAKER, TAKER, 1), Err(EscrowError::NotFound));
}

#[test]
fn take_overflow_leaves_ledger_unchanged() {
    let mut l = funded(150, 80);
    assert_eq!(make(&mut l, MAKER, 1, 100, 50, ASSET_X, ASSET_Y), Ok(()));
    assert_eq!(l.credit(TAKER, ASSET_X, u64::MAX - 99), Ok(()));
    assert_eq!(take(&mut l, TAKER, MAKER, 1), Err(EscrowError::Overflow));
    assert_eq!(l.balance(TAKER, ASSET_Y), 80);
    assert_eq!(l.balance(MAKER, ASSET_Y), 0);
    assert_eq!(l.escrow(MAKER, 1).map(|e| e.vault), Some(100));
}

#[test]
fn take_overflow_at_maker() {
    let mut l = funded(150, 80);
    assert_eq!(make(&mut l, MAKER, 1, 100, 50, ASSET_X, ASSET_Y), Ok(()));
    assert_eq!(l.credit(MAKER, ASSET_Y, u64::MAX - 49), Ok(()));
    assert_eq!(take(&mut l, TAKER, MAKER, 1), Err(EscrowError::Overflow));
    assert_eq!(l.balance(TAKER, ASSET_Y), 80);
}

#[test]
fn refund_overflow() {
    let mut l = funded(150, 0);
    assert_eq!(make(&mut l, MAKER, 1, 100, 50, ASSET_X, ASSET_Y), Ok(()));
    assert_eq!(l.credit(MAKER, ASSET_X, u64::MAX - 60), Ok(()));
    assert_eq!(refund(&mut l, MAKER, MAKER, 1), Err(EscrowError::Overflow));
    assert_eq!(l.escrow(MAKER, 1).map(|e| e.vault), Some(100));
}

#[test]
fn credit_overflow() {
    let mut l = Ledger::new();
    assert_eq!(l.credit(MAKER, ASSET_X, u64::MAX), Ok(()));
    assert_eq!(l.credit(MAKER, ASSET_X, 1), Err(EscrowError::Overflow));
    assert_eq!(l.balance(MAKER, ASSET_X), u64::MAX);
    assert_eq!(l.credit(MAKER, ASSET_X, 0), Ok(()));
}

#[test]
fn untouched_balance_is_zero() {
    let l = Ledger::new();
    assert_eq!(l.balance(MAKER, ASSET_X), 0);
    assert_eq!(l.escrow(MAKER, 0), None);
}

#[test]
fn take_by_maker_same_asset() {
    let mut l = Ledger::new();
    assert_eq!(l.credit(MAKER, ASSET_X, 500), Ok(()));
    assert_eq!(make(&mut l, MAKER, 1, 100, 30, ASSET_X, ASSET_X), Ok(()));
    assert_eq!(l.balance(MAKER, ASSET_X), 400);
    assert_eq!(take(&mut l, MAKER, MAKER, 1), Ok(()));
    assert_eq!(l.balance(MAKER, ASSET_X), 500);
    assert_eq!(l.escrow(MAKER, 1), None);
}

#[test]
fn take_same_asset_distinct_parties() {
    let mut l = Ledger::new();
    assert_eq!(l.credit(MAKER, ASSET_X, 100), Ok(()));
    assert_eq!(l.credit(TAKER, ASSET_X, 40), Ok(()));
    assert_eq!(make(&mut l, MAKER, 1, 100, 30, ASSET_X, ASSET_X), Ok(()));
    assert_eq!(take(&mut l, TAKER, MAKER, 1), Ok(()));
    assert_eq!(l.balance(MAKER, ASSET_X), 30);
    assert_eq!(l.balance(TAKER, ASSET_X), 110);
}

#[test]
fn escrows_of_two_makers_are_independent() {
    let mut l = funded(100, 0);
    assert_eq!(l.credit(STRANGER, ASSET_X, 100), Ok(()));
    assert_eq!(make(&mut l, MAKER, 1, 60, 5, ASSET_X, ASSET_Y), Ok(()));
    assert_eq!(make(&mut l, STRANGER, 1, 70, 6, ASSET_X, ASSET_Y), Ok(()));
    assert_eq!(refund(&mut l, MAKER, MAKER, 1), Ok(()));
    assert_eq!(l.escrow(STRANGER, 1).map(|e| e.vault), Some(70));
    assert_eq!(l.balance(MAKER, ASSET_X), 100);
    assert_eq!(l.balance(STRANGER, ASSET_X), 30);
}
