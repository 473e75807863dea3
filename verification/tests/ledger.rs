use dex_core::ledger::Ledger;
use dex_core::types::LedgerError;

const HDX: u32 = 0;
const ALICE: u64 = 1;
const BOB: u64 = 2;

#[test]
fn reserve_moves_funds_between_the_buckets() {
    let mut ledger = Ledger::new();
    ledger.deposit(HDX, ALICE, 100).unwrap();
    ledger.reserve(HDX, ALICE, 60).unwrap();
    assert_eq!(ledger.free_balance(HDX, ALICE), 40);
    assert_eq!(ledger.reserved_balance(HDX, ALICE), 60);

    let leftover = ledger.unreserve(HDX, ALICE, 100).unwrap();
    assert_eq!(leftover, 40);
    assert_eq!(ledger.free_balance(HDX, ALICE), 100);
    assert_eq!(ledger.reserved_balance(HDX, ALICE), 0);
}

#[test]
fn reserve_fails_without_enough_free_balance() {
    let mut ledger = Ledger::new();
    ledger.deposit(HDX, ALICE, 50).unwrap();
    assert_eq!(ledger.reserve(HDX, ALICE, 51), Err(LedgerError::InsufficientBalance));
    assert_eq!(ledger.free_balance(HDX, ALICE), 50);
}

#[test]
fn transfer_moves_free_balance_and_nothing_else() {
    let mut ledger = Ledger::new();
    ledger.deposit(HDX, ALICE, 100).unwrap();
    ledger.reserve(HDX, ALICE, 30).unwrap();
    ledger.transfer(HDX, ALICE, BOB, 50).unwrap();
    assert_eq!(ledger.free_balance(HDX, ALICE), 20);
    assert_eq!(ledger.reserved_balance(HDX, ALICE), 30);
    assert_eq!(ledger.free_balance(HDX, BOB), 50);

    assert_eq!(ledger.transfer(HDX, ALICE, BOB, 21), Err(LedgerError::InsufficientBalance));
}

#[test]
fn withdraw_burns_and_deposit_mints() {
    let mut ledger = Ledger::new();
    ledger.deposit(HDX, ALICE, 100).unwrap();
    ledger.withdraw(HDX, ALICE, 30).unwrap();
    assert_eq!(ledger.free_balance(HDX, ALICE), 70);
    assert_eq!(ledger.withdraw(HDX, ALICE, 71), Err(LedgerError::InsufficientBalance));
    assert_eq!(ledger.deposit(HDX, ALICE, u128::MAX), Err(LedgerError::Overflow));
}
