use dex_core::breaker::CircuitBreaker;
use dex_core::ledger::Ledger;
use dex_core::multipayment::{MultiPayment, PaymentError, CORE_ASSET_ID};
use dex_core::omnipool::Omnipool;

const HDX: u32 = 0;
const DAI: u32 = 2;
const ONE: u128 = 1_000_000_000_000;
const ALICE: u64 = 1;
const BOB: u64 = 2;
const POOL_ACCOUNT: u64 = 12;
const TREASURY: u64 = 99;

fn setup() -> (MultiPayment, Omnipool, Ledger, CircuitBreaker) {
    let mut ledger = Ledger::new();
    let mut pool = Omnipool::new(POOL_ACCOUNT, 1000);
    pool.add_token(HDX, 1, 1).unwrap();
    pool.add_token(DAI, 1, 2).unwrap();
    ledger.deposit(HDX, POOL_ACCOUNT, 1_000_000 * ONE).unwrap();
    ledger.deposit(DAI, POOL_ACCOUNT, 1_000_000 * ONE).unwrap();
    ledger.deposit(DAI, ALICE, 1_000 * ONE).unwrap();
    (MultiPayment::new(), pool, ledger, CircuitBreaker::new(1_000_000, 1_000_000))
}

#[test]
fn currency_list_is_curated_by_authorities_only() {
    let (mut mp, _pool, _ledger, _breaker) = setup();
    assert_eq!(mp.add_currency(ALICE, DAI), Err(PaymentError::NotAllowed));

    mp.add_member(ALICE);
    mp.add_currency(ALICE, DAI).unwrap();
    assert_eq!(mp.add_currency(ALICE, DAI), Err(PaymentError::AlreadyAccepted));
    assert_eq!(mp.add_currency(ALICE, CORE_ASSET_ID), Err(PaymentError::CoreAssetNotAllowed));

    assert_eq!(mp.remove_currency(BOB, DAI), Err(PaymentError::NotAllowed));
    mp.remove_currency(ALICE, DAI).unwrap();
    assert_eq!(mp.remove_currency(ALICE, DAI), Err(PaymentError::UnsupportedCurrency));
}

#[test]
fn set_currency_needs_an_accepted_currency_and_a_balance() {
    let (mut mp, _pool, ledger, _breaker) = setup();
    assert_eq!(mp.set_currency(&ledger, ALICE, DAI), Err(PaymentError::UnsupportedCurrency));

    mp.add_member(BOB);
    mp.add_currency(BOB, DAI).unwrap();
    mp.set_currency(&ledger, ALICE, DAI).unwrap();
    assert_eq!(mp.get_currency(ALICE), DAI);

    // Bob holds no accepted currency at all
    assert_eq!(mp.set_currency(&ledger, BOB, DAI), Err(PaymentError::ZeroBalance));
    assert_eq!(mp.get_currency(BOB), CORE_ASSET_ID);
}

#[test]
fn withdraw_fee_swaps_into_the_core_asset_first() {
    let (mut mp, pool, mut ledger, mut breaker) = setup();
    mp.add_member(BOB);
    mp.add_currency(BOB, DAI).unwrap();
    mp.set_currency(&ledger, ALICE, DAI).unwrap();

    let fee = ONE;
    let paid = mp.withdraw_fee(&pool, &mut ledger, &mut breaker, ALICE, fee).unwrap();
    assert_eq!(paid, fee);
    // the core asset bought for the fee was burnt again by the withdrawal
    assert_eq!(ledger.free_balance(HDX, ALICE), 0);
    // buying one core asset unit costs two of the chosen currency
    assert_eq!(ledger.free_balance(DAI, ALICE), 1_000 * ONE - 2 * ONE);
}

#[test]
fn withdraw_fee_of_zero_is_free() {
    let (mp, pool, mut ledger, mut breaker) = setup();
    assert_eq!(mp.withdraw_fee(&pool, &mut ledger, &mut breaker, ALICE, 0), Ok(0));
    assert_eq!(ledger.free_balance(DAI, ALICE), 1_000 * ONE);
}

#[test]
fn correct_and_deposit_fee_refunds_the_overcharge() {
    let (mp, pool, mut ledger, mut breaker) = setup();
    ledger.deposit(HDX, ALICE, 10 * ONE).unwrap();
    let paid = mp.withdraw_fee(&pool, &mut ledger, &mut breaker, ALICE, 4 * ONE).unwrap();
    assert_eq!(ledger.free_balance(HDX, ALICE), 6 * ONE);

    mp.correct_and_deposit_fee(&mut ledger, ALICE, TREASURY, 3 * ONE, paid).unwrap();
    assert_eq!(ledger.free_balance(HDX, ALICE), 7 * ONE);
    assert_eq!(ledger.free_balance(HDX, TREASURY), 3 * ONE);
}

#[test]
fn withdraw_fee_without_funds_should_fail_with_payment_error() {
    let (mp, pool, mut ledger, mut breaker) = setup();
    // Bob holds nothing at all
    assert_eq!(
        mp.withdraw_fee(&pool, &mut ledger, &mut breaker, BOB, ONE),
        Err(PaymentError::Payment)
    );
}
