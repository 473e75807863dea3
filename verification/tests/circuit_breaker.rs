use dex_core::breaker::{calculate_limit, CircuitBreaker};
use dex_core::ledger::Ledger;
use dex_core::omnipool::Omnipool;
use dex_core::types::{AmmError, ExecutorError, PoolType};

const HDX: u32 = 0;
const DAI: u32 = 2;
const ONE: u128 = 1_000_000_000_000;
const ALICE: u64 = 1;
const POOL_ACCOUNT: u64 = 12;
// a fifth of the reserve may move per block
const TRADE_FRACTION: u32 = 200_000;
const LIQUIDITY_FRACTION: u32 = 200_000;

fn setup() -> (Omnipool, Ledger, CircuitBreaker) {
    let mut ledger = Ledger::new();
    let mut pool = Omnipool::new(POOL_ACCOUNT, 1000);
    pool.add_token(HDX, 1, 1).unwrap();
    pool.add_token(DAI, 1, 2).unwrap();
    ledger.deposit(HDX, POOL_ACCOUNT, 1_000_000 * ONE).unwrap();
    ledger.deposit(DAI, POOL_ACCOUNT, 1_000 * ONE).unwrap();
    let breaker = CircuitBreaker::new(TRADE_FRACTION, LIQUIDITY_FRACTION);
    (pool, ledger, breaker)
}

#[test]
fn sell_in_omnipool_should_work_when_max_trade_limit_per_block_not_exceeded() {
    let (pool, mut ledger, mut breaker) = setup();
    let dai_balance_in_omnipool = ledger.free_balance(DAI, POOL_ACCOUNT);
    let trade_volume_limit = breaker.trade_volume_limit_per_asset();
    let sell_amount = calculate_limit(dai_balance_in_omnipool, trade_volume_limit);
    ledger.deposit(DAI, ALICE, sell_amount).unwrap();

    let r = pool.execute_sell(ALICE, PoolType::Omnipool, DAI, HDX, sell_amount, 0, &mut ledger, &mut breaker);

    assert!(r.is_ok());
    assert_eq!(ledger.free_balance(DAI, ALICE), 0);
}

#[test]
fn sell_in_omnipool_should_fail_when_max_trade_limit_per_block_exceeded() {
    let (pool, mut ledger, mut breaker) = setup();
    let dai_balance_in_omnipool = ledger.free_balance(DAI, POOL_ACCOUNT);
    let trade_volume_limit = breaker.trade_volume_limit_per_asset();
    let sell_amount = calculate_limit(dai_balance_in_omnipool, trade_volume_limit).checked_add(1).unwrap();
    ledger.deposit(DAI, ALICE, sell_amount).unwrap();
    let free_before = ledger.free_balance(DAI, ALICE);
    let pool_before = ledger.free_balance(DAI, POOL_ACCOUNT);

    let r = pool.execute_sell(ALICE, PoolType::Omnipool, DAI, HDX, sell_amount, 0, &mut ledger, &mut breaker);

    assert_eq!(r, Err(ExecutorError::Error(AmmError::MaxTradeVolumePerBlockReached)));
    // no effect at all: reserves and balances are exactly as before
    assert_eq!(ledger.free_balance(DAI, ALICE), free_before);
    assert_eq!(ledger.free_balance(DAI, POOL_ACCOUNT), pool_before);
}

#[test]
fn add_liquidity_to_omnipool_should_work_when_liquidity_limit_per_block_not_exceeded() {
    let (pool, mut ledger, mut breaker) = setup();
    let hdx_balance_in_omnipool = ledger.free_balance(HDX, POOL_ACCOUNT);
    let liquidity_limit = breaker.liquidity_limit_per_asset();
    let added_liquidity = calculate_limit(hdx_balance_in_omnipool, liquidity_limit);
    ledger.deposit(HDX, ALICE, added_liquidity).unwrap();

    let r = pool.add_liquidity(ALICE, HDX, added_liquidity, &mut ledger, &mut breaker);

    assert!(r.is_ok());
    assert_eq!(ledger.free_balance(HDX, POOL_ACCOUNT), hdx_balance_in_omnipool + added_liquidity);
}

#[test]
fn add_liquidity_to_omnipool_should_fail_when_liquidity_limit_per_block_exceeded() {
    let (pool, mut ledger, mut breaker) = setup();
    let hdx_balance_in_omnipool = ledger.free_balance(HDX, POOL_ACCOUNT);
    let liquidity_limit = breaker.liquidity_limit_per_asset();
    let added_liquidity = calculate_limit(hdx_balance_in_omnipool, liquidity_limit).checked_add(1).unwrap();
    ledger.deposit(HDX, ALICE, added_liquidity).unwrap();

    let r = pool.add_liquidity(ALICE, HDX, added_liquidity, &mut ledger, &mut breaker);

    assert_eq!(r, Err(AmmError::MaxLiquidityLimitPerBlockReached));
    assert_eq!(ledger.free_balance(HDX, POOL_ACCOUNT), hdx_balance_in_omnipool);
    assert_eq!(ledger.free_balance(HDX, ALICE), added_liquidity);
}

#[test]
fn block_start_should_reset_the_consumed_volume() {
    let (pool, mut ledger, mut breaker) = setup();
    let limit = calculate_limit(ledger.free_balance(DAI, POOL_ACCOUNT), TRADE_FRACTION);
    ledger.deposit(DAI, ALICE, 2 * limit).unwrap();

    let r = pool.execute_sell(ALICE, PoolType::Omnipool, DAI, HDX, limit, 0, &mut ledger, &mut breaker);
    assert!(r.is_ok());
    // the block's cap is spent: one more unit is rejected
    let r = pool.execute_sell(ALICE, PoolType::Omnipool, DAI, HDX, 1000, 0, &mut ledger, &mut breaker);
    assert_eq!(r, Err(ExecutorError::Error(AmmError::MaxTradeVolumePerBlockReached)));

    // a new block wipes the counters and the same trade passes
    breaker.on_block_start();
    let r = pool.execute_sell(ALICE, PoolType::Omnipool, DAI, HDX, 1000, 0, &mut ledger, &mut breaker);
    assert!(r.is_ok());
}

#[test]
fn calculate_limit_should_be_the_floor_of_the_reserve_fraction() {
    assert_eq!(calculate_limit(1_000_000 * ONE, 200_000), 200_000 * ONE);
    assert_eq!(calculate_limit(7, 500_000), 3);
    assert_eq!(calculate_limit(0, 500_000), 0);
    assert_eq!(calculate_limit(u128::MAX, 1_000_000), u128::MAX);
}
