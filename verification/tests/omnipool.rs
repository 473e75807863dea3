use dex_core::breaker::CircuitBreaker;
use dex_core::ledger::Ledger;
use dex_core::omnipool::Omnipool;
use dex_core::types::{AmmError, ExecutorError, PoolType};

const HDX: u32 = 0;
const DAI: u32 = 2;
const BTC: u32 = 3;
const ONE: u128 = 1_000_000_000_000;
const ALICE: u64 = 1;
const POOL_ACCOUNT: u64 = 12;

fn setup() -> (Omnipool, Ledger, CircuitBreaker) {
    let mut ledger = Ledger::new();
    let mut pool = Omnipool::new(POOL_ACCOUNT, 1000);
    pool.add_token(HDX, 1, 1).unwrap();
    pool.add_token(DAI, 1, 2).unwrap();
    pool.add_token(BTC, 65, 100).unwrap();
    for asset in [HDX, DAI, BTC] {
        ledger.deposit(asset, POOL_ACCOUNT, 1_000_000 * ONE).unwrap();
    }
    ledger.deposit(HDX, ALICE, 1_000 * ONE).unwrap();
    (pool, ledger, CircuitBreaker::new(1_000_000, 1_000_000))
}

#[test]
fn calculate_sell_should_convert_through_the_hub_price() {
    let (pool, _ledger, _breaker) = setup();
    // ten HDX at price one, out in DAI at price one half: twenty DAI
    let out = pool.calculate_sell(PoolType::Omnipool, HDX, DAI, 10 * ONE).unwrap();
    assert_eq!(out, 20 * ONE);
    // and the other way: rounding down
    let out = pool.calculate_sell(PoolType::Omnipool, DAI, BTC, 13 * ONE).unwrap();
    assert_eq!(out, 13 * ONE / 2 * 100 / 65);
}

#[test]
fn calculate_buy_should_round_the_charge_up() {
    let (pool, _ledger, _breaker) = setup();
    let amount_in = pool.calculate_buy(PoolType::Omnipool, HDX, BTC, ONE).unwrap();
    assert_eq!(amount_in, 650_000_000_000);
    // an output that does not divide evenly charges one unit more
    let amount_in = pool.calculate_buy(PoolType::Omnipool, HDX, BTC, ONE + 1).unwrap();
    assert_eq!(amount_in, 650_000_000_001);
}

#[test]
fn calculate_sell_twice_with_identical_state_and_inputs_yields_identical_outputs() {
    let (pool, _ledger, _breaker) = setup();
    let first = pool.calculate_sell(PoolType::Omnipool, HDX, DAI, 7 * ONE + 3);
    let second = pool.calculate_sell(PoolType::Omnipool, HDX, DAI, 7 * ONE + 3);
    assert_eq!(first, second);
}

#[test]
fn calculate_sell_should_answer_not_supported_for_other_pool_types() {
    let (pool, _ledger, _breaker) = setup();
    assert_eq!(
        pool.calculate_sell(PoolType::Xyk, HDX, DAI, ONE),
        Err(ExecutorError::NotSupported)
    );
    assert_eq!(
        pool.calculate_sell(PoolType::Stableswap(7), HDX, DAI, ONE),
        Err(ExecutorError::NotSupported)
    );
}

#[test]
fn calculate_sell_should_reject_unknown_assets_and_dust() {
    let (pool, _ledger, _breaker) = setup();
    assert_eq!(
        pool.calculate_sell(PoolType::Omnipool, HDX, 77, ONE),
        Err(ExecutorError::Error(AmmError::AssetNotInPool))
    );
    assert_eq!(
        pool.calculate_sell(PoolType::Omnipool, HDX, DAI, 999),
        Err(ExecutorError::Error(AmmError::MinTradeAmountNotReached))
    );
    assert_eq!(
        pool.calculate_sell(PoolType::Omnipool, HDX, HDX, ONE),
        Err(ExecutorError::Error(AmmError::NotAllowed))
    );
}

#[test]
fn execute_sell_should_move_both_legs_between_trader_and_pool() {
    let (pool, mut ledger, mut breaker) = setup();
    pool.execute_sell(ALICE, PoolType::Omnipool, HDX, DAI, 10 * ONE, 0, &mut ledger, &mut breaker)
        .unwrap();
    assert_eq!(ledger.free_balance(HDX, ALICE), 990 * ONE);
    assert_eq!(ledger.free_balance(DAI, ALICE), 20 * ONE);
    assert_eq!(ledger.free_balance(HDX, POOL_ACCOUNT), 1_000_000 * ONE + 10 * ONE);
    assert_eq!(ledger.free_balance(DAI, POOL_ACCOUNT), 1_000_000 * ONE - 20 * ONE);
}

#[test]
fn execute_sell_should_enforce_the_minimum_output() {
    let (pool, mut ledger, mut breaker) = setup();
    let r = pool.execute_sell(
        ALICE,
        PoolType::Omnipool,
        HDX,
        DAI,
        10 * ONE,
        20 * ONE + 1,
        &mut ledger,
        &mut breaker,
    );
    assert_eq!(r, Err(ExecutorError::Error(AmmError::TradeLimitExceeded)));
    assert_eq!(ledger.free_balance(HDX, ALICE), 1_000 * ONE);
}

#[test]
fn execute_buy_should_enforce_the_maximum_input() {
    let (pool, mut ledger, mut breaker) = setup();
    let r = pool.execute_buy(
        ALICE,
        PoolType::Omnipool,
        HDX,
        BTC,
        ONE,
        650_000_000_000 - 1,
        &mut ledger,
        &mut breaker,
    );
    assert_eq!(r, Err(ExecutorError::Error(AmmError::TradeLimitExceeded)));

    pool.execute_buy(
        ALICE,
        PoolType::Omnipool,
        HDX,
        BTC,
        ONE,
        650_000_000_000,
        &mut ledger,
        &mut breaker,
    )
    .unwrap();
    assert_eq!(ledger.free_balance(BTC, ALICE), ONE);
    assert_eq!(ledger.free_balance(HDX, ALICE), 1_000 * ONE - 650_000_000_000);
}

#[test]
fn get_liquidity_depth_should_report_the_pool_reserve() {
    let (pool, mut ledger, mut breaker) = setup();
    assert_eq!(
        pool.get_liquidity_depth(PoolType::Omnipool, DAI, &ledger),
        Ok(1_000_000 * ONE)
    );
    pool.execute_sell(ALICE, PoolType::Omnipool, HDX, DAI, 10 * ONE, 0, &mut ledger, &mut breaker)
        .unwrap();
    assert_eq!(
        pool.get_liquidity_depth(PoolType::Omnipool, DAI, &ledger),
        Ok(1_000_000 * ONE - 20 * ONE)
    );
    assert_eq!(
        pool.get_liquidity_depth(PoolType::Omnipool, HDX, &ledger),
        Ok(1_000_000 * ONE + 10 * ONE)
    );
}

#[test]
fn calculate_spot_price_should_be_the_hub_price_ratio() {
    let (pool, _ledger, _breaker) = setup();
    // one HDX is worth two DAI
    assert_eq!(pool.calculate_spot_price(PoolType::Omnipool, HDX, DAI), Ok((2, 1)));
    // one BTC is worth 0.65 HDX
    assert_eq!(pool.calculate_spot_price(PoolType::Omnipool, BTC, HDX), Ok((65, 100)));
}

#[test]
fn remove_liquidity_should_give_the_reserve_back() {
    let (pool, mut ledger, mut breaker) = setup();
    pool.remove_liquidity(ALICE, DAI, 5 * ONE, &mut ledger, &mut breaker).unwrap();
    assert_eq!(ledger.free_balance(DAI, ALICE), 5 * ONE);
    assert_eq!(ledger.free_balance(DAI, POOL_ACCOUNT), 1_000_000 * ONE - 5 * ONE);
}

#[test]
fn execute_sell_without_funds_should_fail_with_insufficient_balance() {
    let (pool, mut ledger, mut breaker) = setup();
    let r = pool.execute_sell(
        ALICE,
        PoolType::Omnipool,
        HDX,
        DAI,
        2_000 * ONE,
        0,
        &mut ledger,
        &mut breaker,
    );
    assert_eq!(r, Err(ExecutorError::Error(AmmError::InsufficientBalance)));
}

#[test]
fn add_token_should_reject_a_zero_price_and_a_relisting() {
    let (mut pool, _ledger, _breaker) = setup();
    assert_eq!(pool.add_token(50, 0, 1), Err(AmmError::ZeroPrice));
    assert_eq!(pool.add_token(50, 1, 0), Err(AmmError::ZeroPrice));
    assert_eq!(pool.add_token(HDX, 1, 1), Err(AmmError::NotAllowed));
    pool.add_token(50, 3, 7).unwrap();
}
