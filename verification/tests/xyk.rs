use dex_core::breaker::CircuitBreaker;
use dex_core::ledger::Ledger;
use dex_core::types::{AmmError, ExecutorError, PoolType};
use dex_core::xyk::Xyk;

const HDX: u32 = 0;
const DOT: u32 = 7;
const ONE: u128 = 1_000_000_000_000;
const ALICE: u64 = 1;
const PAIR_ACCOUNT: u64 = 7000;

fn setup() -> (Xyk, Ledger, CircuitBreaker) {
    let mut ledger = Ledger::new();
    let mut xyk = Xyk::new();
    xyk.create_pool(HDX, DOT, PAIR_ACCOUNT).unwrap();
    ledger.deposit(HDX, PAIR_ACCOUNT, 1_000 * ONE).unwrap();
    ledger.deposit(DOT, PAIR_ACCOUNT, 2_000 * ONE).unwrap();
    ledger.deposit(HDX, ALICE, 100 * ONE).unwrap();
    (xyk, ledger, CircuitBreaker::new(1_000_000, 1_000_000))
}

#[test]
fn xyk_sell_follows_the_constant_product_formula() {
    let (xyk, ledger, _breaker) = setup();
    // out = out_reserve * amount_in / (in_reserve + amount_in)
    let out = xyk.calculate_sell(PoolType::Xyk, HDX, DOT, 10 * ONE, &ledger).unwrap();
    assert_eq!(out, 2_000 * ONE * (10 * ONE) / (1_010 * ONE));
    // the pair works in both directions
    let out = xyk.calculate_sell(PoolType::Xyk, DOT, HDX, 10 * ONE, &ledger).unwrap();
    assert_eq!(out, 1_000 * ONE * (10 * ONE) / (2_010 * ONE));
    // a zero sale yields nothing
    assert_eq!(xyk.calculate_sell(PoolType::Xyk, HDX, DOT, 0, &ledger), Ok(0));
}

#[test]
fn xyk_buy_follows_the_constant_product_formula_rounded_up() {
    let (xyk, ledger, _breaker) = setup();
    // in = in_reserve * amount_out / (out_reserve - amount_out) + 1
    let amount_in = xyk.calculate_buy(PoolType::Xyk, HDX, DOT, 10 * ONE, &ledger).unwrap();
    assert_eq!(amount_in, 1_000 * ONE * (10 * ONE) / (1_990 * ONE) + 1);
    // buying the whole reserve has no finite price
    assert_eq!(
        xyk.calculate_buy(PoolType::Xyk, HDX, DOT, 2_000 * ONE, &ledger),
        Err(ExecutorError::Error(AmmError::InsufficientLiquidity))
    );
}

#[test]
fn xyk_execute_sell_moves_both_legs() {
    let (xyk, mut ledger, mut breaker) = setup();
    let out = xyk.calculate_sell(PoolType::Xyk, HDX, DOT, 10 * ONE, &ledger).unwrap();
    xyk.execute_sell(ALICE, PoolType::Xyk, HDX, DOT, 10 * ONE, 0, &mut ledger, &mut breaker).unwrap();
    assert_eq!(ledger.free_balance(HDX, ALICE), 90 * ONE);
    assert_eq!(ledger.free_balance(DOT, ALICE), out);
    assert_eq!(ledger.free_balance(HDX, PAIR_ACCOUNT), 1_010 * ONE);
    assert_eq!(ledger.free_balance(DOT, PAIR_ACCOUNT), 2_000 * ONE - out);
}

#[test]
fn xyk_execute_buy_respects_the_limit_and_moves_both_legs() {
    let (xyk, mut ledger, mut breaker) = setup();
    let amount_in = xyk.calculate_buy(PoolType::Xyk, HDX, DOT, ONE, &ledger).unwrap();
    let r = xyk.execute_buy(ALICE, PoolType::Xyk, HDX, DOT, ONE, amount_in - 1, &mut ledger, &mut breaker);
    assert_eq!(r, Err(ExecutorError::Error(AmmError::TradeLimitExceeded)));

    xyk.execute_buy(ALICE, PoolType::Xyk, HDX, DOT, ONE, amount_in, &mut ledger, &mut breaker).unwrap();
    assert_eq!(ledger.free_balance(DOT, ALICE), ONE);
    assert_eq!(ledger.free_balance(HDX, ALICE), 100 * ONE - amount_in);
}

#[test]
fn xyk_answers_not_supported_for_other_pool_types() {
    let (xyk, ledger, _breaker) = setup();
    assert_eq!(
        xyk.calculate_sell(PoolType::Omnipool, HDX, DOT, ONE, &ledger),
        Err(ExecutorError::NotSupported)
    );
    assert_eq!(
        xyk.calculate_sell(PoolType::Xyk, HDX, 99, ONE, &ledger),
        Err(ExecutorError::Error(AmmError::PoolNotFound))
    );
}

#[test]
fn xyk_liquidity_depth_is_the_pair_account_reserve() {
    let (xyk, ledger, _breaker) = setup();
    assert_eq!(xyk.get_liquidity_depth(PoolType::Xyk, DOT, HDX, &ledger), Ok(2_000 * ONE));
    assert_eq!(xyk.get_liquidity_depth(PoolType::Xyk, HDX, DOT, &ledger), Ok(1_000 * ONE));
}

#[test]
fn xyk_trades_are_capped_by_the_circuit_breaker() {
    let (xyk, mut ledger, _full) = setup();
    // a fifth of the reserve may move per block
    let mut breaker = CircuitBreaker::new(200_000, 200_000);
    let limit = dex_core::breaker::calculate_limit(1_000 * ONE, 200_000);
    ledger.deposit(HDX, ALICE, 1_000 * ONE).unwrap();

    let r = xyk.execute_sell(ALICE, PoolType::Xyk, HDX, DOT, limit, 0, &mut ledger, &mut breaker);
    assert!(r.is_ok());

    breaker.on_block_start();
    // the first sell grew the reserve, so the fresh block's cap is larger
    let reserve_now = ledger.free_balance(HDX, PAIR_ACCOUNT);
    let over = dex_core::breaker::calculate_limit(reserve_now, 200_000) + 1;
    let hdx_before = ledger.free_balance(HDX, ALICE);
    let pool_before = ledger.free_balance(HDX, PAIR_ACCOUNT);
    let r = xyk.execute_sell(ALICE, PoolType::Xyk, HDX, DOT, over, 0, &mut ledger, &mut breaker);
    assert_eq!(r, Err(ExecutorError::Error(AmmError::MaxTradeVolumePerBlockReached)));
    assert_eq!(ledger.free_balance(HDX, ALICE), hdx_before);
    assert_eq!(ledger.free_balance(HDX, PAIR_ACCOUNT), pool_before);
}
