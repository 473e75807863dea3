use dex_core::breaker::CircuitBreaker;
use dex_core::ledger::Ledger;
use dex_core::stableswap::Stableswap;
use dex_core::types::{AmmError, ExecutorError, PoolType};

const USDA: u32 = 10;
const USDB: u32 = 11;
const SHARE_ASSET: u32 = 100;
const ONE: u128 = 1_000_000_000_000;
const ALICE: u64 = 1;
// the reserve account the library derives from the share asset
const POOL_ACCOUNT: u64 = 0x1_0000_0000 + SHARE_ASSET as u64;
const AMPLIFICATION: u128 = 100;

fn setup() -> (Stableswap, Ledger, CircuitBreaker) {
    let mut ledger = Ledger::new();
    let mut stable = Stableswap::new();
    stable.create_pool(SHARE_ASSET, USDA, USDB, AMPLIFICATION).unwrap();
    ledger.deposit(USDA, POOL_ACCOUNT, 1_000 * ONE).unwrap();
    ledger.deposit(USDB, POOL_ACCOUNT, 1_000 * ONE).unwrap();
    ledger.deposit(USDA, ALICE, 100 * ONE).unwrap();
    (stable, ledger, CircuitBreaker::new(1_000_000, 1_000_000))
}

#[test]
fn stableswap_sell_should_trade_near_parity_in_a_balanced_pool() {
    let (stable, ledger, _breaker) = setup();
    let out = stable
        .calculate_sell(PoolType::Stableswap(SHARE_ASSET), USDA, USDB, ONE, &ledger)
        .unwrap();
    // a stable pair in balance trades close to one for one, yet the
    // curve always keeps a sliver: strictly less comes out than went in
    assert!(out > 99 * ONE / 100);
    assert!(out < ONE);
}

#[test]
fn stableswap_execute_sell_should_move_exactly_the_calculated_amounts() {
    let (mut stable, mut ledger, mut breaker) = setup();
    let out = stable
        .calculate_sell(PoolType::Stableswap(SHARE_ASSET), USDA, USDB, ONE, &ledger)
        .unwrap();

    stable
        .execute_sell(ALICE, PoolType::Stableswap(SHARE_ASSET), USDA, USDB, ONE, 0, &mut ledger, &mut breaker)
        .unwrap();

    assert_eq!(ledger.free_balance(USDA, ALICE), 99 * ONE);
    assert_eq!(ledger.free_balance(USDB, ALICE), out);
    assert_eq!(ledger.free_balance(USDA, POOL_ACCOUNT), 1_000 * ONE + ONE);
    assert_eq!(ledger.free_balance(USDB, POOL_ACCOUNT), 1_000 * ONE - out);
}

#[test]
fn stableswap_buy_should_charge_at_least_the_bought_amount() {
    let (stable, mut ledger, mut breaker) = setup();
    let amount_in = stable
        .calculate_buy(PoolType::Stableswap(SHARE_ASSET), USDA, USDB, ONE, &ledger)
        .unwrap();
    // strictly more goes in than comes out, but not much more
    assert!(amount_in > ONE);
    assert!(amount_in < ONE + ONE / 100);

    stable
        .execute_buy(
            ALICE,
            PoolType::Stableswap(SHARE_ASSET),
            USDA,
            USDB,
            ONE,
            2 * ONE,
            &mut ledger,
            &mut breaker,
        )
        .unwrap();
    assert_eq!(ledger.free_balance(USDB, ALICE), ONE);
    assert_eq!(ledger.free_balance(USDA, ALICE), 100 * ONE - amount_in);
}

#[test]
fn stableswap_should_answer_not_supported_for_other_pool_types() {
    let (stable, ledger, _breaker) = setup();
    assert_eq!(
        stable.calculate_sell(PoolType::Omnipool, USDA, USDB, ONE, &ledger),
        Err(ExecutorError::NotSupported)
    );
    assert_eq!(
        stable.calculate_buy(PoolType::Xyk, USDA, USDB, ONE, &ledger),
        Err(ExecutorError::NotSupported)
    );
}

#[test]
fn stableswap_should_reject_assets_outside_the_pool() {
    let (stable, ledger, _breaker) = setup();
    assert_eq!(
        stable.calculate_sell(PoolType::Stableswap(SHARE_ASSET), USDA, 77, ONE, &ledger),
        Err(ExecutorError::Error(AmmError::AssetNotInPool))
    );
    assert_eq!(
        stable.calculate_sell(PoolType::Stableswap(9), USDA, USDB, ONE, &ledger),
        Err(ExecutorError::Error(AmmError::PoolNotFound))
    );
}

#[test]
fn stableswap_selling_into_the_share_asset_should_mint_shares() {
    let (mut stable, mut ledger, mut breaker) = setup();
    let shares = stable
        .calculate_sell(PoolType::Stableswap(SHARE_ASSET), USDA, SHARE_ASSET, 10 * ONE, &ledger)
        .unwrap();
    // the first liquidity mints the whole invariant as shares: about the
    // size of the pooled reserves, far more than the added amount
    assert!(shares > 1_500 * ONE);

    stable
        .execute_sell(
            ALICE,
            PoolType::Stableswap(SHARE_ASSET),
            USDA,
            SHARE_ASSET,
            10 * ONE,
            0,
            &mut ledger,
            &mut breaker,
        )
        .unwrap();
    assert_eq!(ledger.free_balance(SHARE_ASSET, ALICE), shares);
    assert_eq!(ledger.free_balance(USDA, POOL_ACCOUNT), 1_010 * ONE);
}

#[test]
fn stableswap_spot_price_should_be_the_probe_ratio() {
    let (stable, ledger, _breaker) = setup();
    let probe = ONE;
    let out = stable
        .calculate_sell(PoolType::Stableswap(SHARE_ASSET), USDA, USDB, probe, &ledger)
        .unwrap();
    let price = stable
        .calculate_spot_price(PoolType::Stableswap(SHARE_ASSET), USDA, USDB, probe, &ledger)
        .unwrap();
    assert_eq!(price, (probe, out));
}

#[test]
fn stableswap_get_liquidity_depth_should_report_the_pool_reserve() {
    let (stable, ledger, _breaker) = setup();
    assert_eq!(
        stable.get_liquidity_depth(PoolType::Stableswap(SHARE_ASSET), USDA, &ledger),
        Ok(1_000 * ONE)
    );
}

#[test]
fn stableswap_share_buys_the_curve_cannot_invert_are_rejected_as_not_allowed() {
    let (stable, ledger, _breaker) = setup();
    // exact-output trades against the share asset would need the curve's
    // inverse, which the mathematics crate does not offer
    assert_eq!(
        stable.calculate_buy(PoolType::Stableswap(SHARE_ASSET), USDA, SHARE_ASSET, ONE, &ledger),
        Err(ExecutorError::Error(AmmError::NotAllowed))
    );
    assert_eq!(
        stable.calculate_buy(PoolType::Stableswap(SHARE_ASSET), SHARE_ASSET, USDA, ONE, &ledger),
        Err(ExecutorError::Error(AmmError::NotAllowed))
    );
}

#[test]
fn stableswap_selling_shares_withdraws_their_value_in_one_asset() {
    let (mut stable, mut ledger, mut breaker) = setup();
    // obtain shares first by a one-sided deposit
    stable
        .execute_sell(
            ALICE,
            PoolType::Stableswap(SHARE_ASSET),
            USDA,
            SHARE_ASSET,
            10 * ONE,
            0,
            &mut ledger,
            &mut breaker,
        )
        .unwrap();
    let shares = ledger.free_balance(SHARE_ASSET, ALICE);
    let usda_before = ledger.free_balance(USDA, ALICE);
    // the first deposit minted the whole invariant, so these shares
    // claim the whole pool; redeem half of them
    let redeem = shares / 2;

    let redeemed = stable
        .calculate_sell(PoolType::Stableswap(SHARE_ASSET), SHARE_ASSET, USDA, redeem, &ledger)
        .unwrap();
    stable
        .execute_sell(
            ALICE,
            PoolType::Stableswap(SHARE_ASSET),
            SHARE_ASSET,
            USDA,
            redeem,
            0,
            &mut ledger,
            &mut breaker,
        )
        .unwrap();

    assert_eq!(ledger.free_balance(SHARE_ASSET, ALICE), shares - redeem);
    assert_eq!(ledger.free_balance(USDA, ALICE), usda_before + redeemed);
    // half the pool's value, paid out in one asset: close to half of
    // each reserve, and strictly less than the one-asset reserve
    assert!(redeemed > 900 * ONE);
    assert!(redeemed < 1_010 * ONE);
}

#[test]
fn stableswap_selling_more_shares_than_exist_is_rejected() {
    let (stable, ledger, _breaker) = setup();
    // the pool has no issuance yet: nothing can be redeemed
    assert_eq!(
        stable.calculate_sell(PoolType::Stableswap(SHARE_ASSET), SHARE_ASSET, USDA, ONE, &ledger),
        Err(ExecutorError::Error(AmmError::InsufficientLiquidity))
    );
}

#[test]
fn stableswap_depth_answers_for_any_share_asset() {
    let (stable, ledger, _breaker) = setup();
    // an unregistered share asset still has a derived, empty account
    assert_eq!(stable.get_liquidity_depth(PoolType::Stableswap(9), USDA, &ledger), Ok(0));
}

#[test]
fn stableswap_create_pool_rejects_degenerate_pairs_and_relisting() {
    let (mut stable, _ledger, _breaker) = setup();
    assert_eq!(stable.create_pool(101, USDA, USDA, AMPLIFICATION), Err(AmmError::NotAllowed));
    assert_eq!(stable.create_pool(USDA, USDA, USDB, AMPLIFICATION), Err(AmmError::NotAllowed));
    assert_eq!(
        stable.create_pool(SHARE_ASSET, USDA, USDB, AMPLIFICATION),
        Err(AmmError::NotAllowed)
    );
    stable.create_pool(101, USDA, USDB, AMPLIFICATION).unwrap();
}
