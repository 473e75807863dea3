use dex_core::breaker::CircuitBreaker;
use dex_core::ledger::Ledger;
use dex_core::omnipool::Omnipool;
use dex_core::stableswap::Stableswap;
use dex_core::xyk::Xyk;
use dex_core::router::{calculate_sell_route, inverse_route, validate_route, Amms, Router};
use dex_core::types::{PoolType, RouterError, Trade};

const HDX: u32 = 0;
const DAI: u32 = 2;
const BTC: u32 = 3;
const ETH: u32 = 5;
const ONE: u128 = 1_000_000_000_000;
const ALICE: u64 = 1;
const POOL_ACCOUNT: u64 = 12;

fn hop(asset_in: u32, asset_out: u32) -> Trade {
    Trade { pool: PoolType::Omnipool, asset_in, asset_out }
}

fn setup(pool_btc: u128) -> (Amms, Ledger, CircuitBreaker, Router) {
    let mut ledger = Ledger::new();
    let mut pool = Omnipool::new(POOL_ACCOUNT, 1000);
    pool.add_token(HDX, 1, 1).unwrap();
    pool.add_token(DAI, 1, 2).unwrap();
    pool.add_token(BTC, 65, 100).unwrap();
    pool.add_token(ETH, 2, 1).unwrap();
    ledger.deposit(HDX, POOL_ACCOUNT, 1_000_000 * ONE).unwrap();
    ledger.deposit(DAI, POOL_ACCOUNT, 1_000_000 * ONE).unwrap();
    ledger.deposit(BTC, POOL_ACCOUNT, pool_btc).unwrap();
    ledger.deposit(ETH, POOL_ACCOUNT, 1_000_000 * ONE).unwrap();
    ledger.deposit(HDX, ALICE, 1_000 * ONE).unwrap();
    (Amms { omnipool: pool, stableswap: Stableswap::new(), xyk: Xyk::new() }, ledger, CircuitBreaker::new(1_000_000, 1_000_000), Router::new())
}

#[test]
fn multi_hop_sell_should_move_exactly_the_chain_amounts() {
    let (amms, mut ledger, mut breaker, router) = setup(1_000_000 * ONE);
    let route = vec![hop(HDX, DAI), hop(DAI, BTC)];
    let amount_in = 10 * ONE;

    // the chain: HDX -> DAI doubles, DAI -> BTC converts at 100/130
    let amounts = calculate_sell_route(&amms, &ledger, &route, amount_in).unwrap();
    assert_eq!(amounts[0], 20 * ONE);
    assert_eq!(amounts[1], 20 * ONE / 2 * 100 / 65);

    let out = router
        .sell(&amms, &mut ledger, &mut breaker, ALICE, HDX, BTC, amount_in, 0, &route)
        .unwrap();
    assert_eq!(out, amounts[1]);
    assert_eq!(ledger.free_balance(HDX, ALICE), 990 * ONE);
    assert_eq!(ledger.free_balance(BTC, ALICE), out);
    // the intermediate asset leaves no residue with the trader
    assert_eq!(ledger.free_balance(DAI, ALICE), 0);
    // the pool's depth reflects exactly the transferred amounts
    assert_eq!(ledger.free_balance(HDX, POOL_ACCOUNT), 1_000_000 * ONE + amount_in);
    assert_eq!(ledger.free_balance(BTC, POOL_ACCOUNT), 1_000_000 * ONE - out);
}

#[test]
fn multi_hop_buy_should_spend_exactly_the_chain_amount() {
    let (amms, mut ledger, mut breaker, router) = setup(1_000_000 * ONE);
    let route = vec![hop(HDX, DAI), hop(DAI, BTC)];
    let amount_out = ONE;

    let spent = router
        .buy(&amms, &mut ledger, &mut breaker, ALICE, HDX, BTC, amount_out, 10 * ONE, &route)
        .unwrap();

    // backward chain: one BTC needs 1.3 DAI, which needs 0.65 HDX
    assert_eq!(spent, 650_000_000_000);
    assert_eq!(ledger.free_balance(BTC, ALICE), amount_out);
    assert_eq!(ledger.free_balance(HDX, ALICE), 1_000 * ONE - spent);
    assert_eq!(ledger.free_balance(HDX, POOL_ACCOUNT), 1_000_000 * ONE + spent);
    assert_eq!(ledger.free_balance(BTC, POOL_ACCOUNT), 1_000_000 * ONE - amount_out);
}

#[test]
fn hop_through_an_unsupported_pool_type_is_rejected() {
    let (amms, mut ledger, mut breaker, router) = setup(1_000_000 * ONE);
    let route = vec![Trade { pool: PoolType::Lbp, asset_in: HDX, asset_out: DAI }];
    let r = router.sell(&amms, &mut ledger, &mut breaker, ALICE, HDX, DAI, ONE, 0, &route);
    assert_eq!(r, Err(RouterError::PoolNotSupported));
    assert_eq!(ledger.free_balance(HDX, ALICE), 1_000 * ONE);
}

#[test]
fn mixed_route_should_compose_omnipool_and_xyk_hops() {
    let (mut amms, mut ledger, mut breaker, router) = setup(1_000_000 * ONE);
    // a constant-product pool for the second hop
    let pair_account: u64 = 7000;
    amms.xyk.create_pool(DAI, ETH, pair_account).unwrap();
    ledger.deposit(DAI, pair_account, 1_000 * ONE).unwrap();
    ledger.deposit(ETH, pair_account, 1_000 * ONE).unwrap();
    let route = vec![hop(HDX, DAI), Trade { pool: PoolType::Xyk, asset_in: DAI, asset_out: ETH }];

    // first hop doubles through the omnipool, the second runs the
    // constant-product formula over the pair's reserves
    let amounts = calculate_sell_route(&amms, &ledger, &route, 10 * ONE).unwrap();
    assert_eq!(amounts[0], 20 * ONE);
    assert_eq!(amounts[1], 1_000 * ONE * (20 * ONE) / (1_020 * ONE));

    let out = router
        .sell(&amms, &mut ledger, &mut breaker, ALICE, HDX, ETH, 10 * ONE, 0, &route)
        .unwrap();
    assert_eq!(out, amounts[1]);
    assert_eq!(ledger.free_balance(ETH, ALICE), out);
    assert_eq!(ledger.free_balance(HDX, ALICE), 990 * ONE);
    assert_eq!(ledger.free_balance(DAI, ALICE), 0);
    assert_eq!(ledger.free_balance(ETH, pair_account), 1_000 * ONE - out);
}

#[test]
fn mixed_route_failure_still_rolls_everything_back() {
    let (mut amms, mut ledger, mut breaker, router) = setup(1_000_000 * ONE);
    // the second hop's pool is registered but holds nothing to pay out
    let pair_account: u64 = 7000;
    amms.xyk.create_pool(DAI, ETH, pair_account).unwrap();
    ledger.deposit(DAI, pair_account, 1_000 * ONE).unwrap();
    let route = vec![hop(HDX, DAI), Trade { pool: PoolType::Xyk, asset_in: DAI, asset_out: ETH }];

    let r = router.sell(&amms, &mut ledger, &mut breaker, ALICE, HDX, ETH, 10 * ONE, ONE, &route);

    assert!(r.is_err());
    assert_eq!(ledger.free_balance(HDX, ALICE), 1_000 * ONE);
    assert_eq!(ledger.free_balance(DAI, ALICE), 0);
    assert_eq!(ledger.free_balance(HDX, POOL_ACCOUNT), 1_000_000 * ONE);
    assert_eq!(ledger.free_balance(DAI, pair_account), 1_000 * ONE);
}

#[test]
fn failed_second_hop_should_roll_back_the_first_hop() {
    // the pool holds almost no BTC, so the second hop must fail on
    // liquidity after the first hop already ran
    let (amms, mut ledger, mut breaker, router) = setup(1000);
    let route = vec![hop(HDX, DAI), hop(DAI, BTC)];

    let r = router.sell(&amms, &mut ledger, &mut breaker, ALICE, HDX, BTC, 10 * ONE, 0, &route);

    assert!(r.is_err());
    // every effect of the first hop was rolled back
    assert_eq!(ledger.free_balance(HDX, ALICE), 1_000 * ONE);
    assert_eq!(ledger.free_balance(DAI, ALICE), 0);
    assert_eq!(ledger.free_balance(HDX, POOL_ACCOUNT), 1_000_000 * ONE);
    assert_eq!(ledger.free_balance(DAI, POOL_ACCOUNT), 1_000_000 * ONE);
    assert_eq!(ledger.free_balance(BTC, POOL_ACCOUNT), 1000);
}

#[test]
fn sell_below_min_limit_should_fail_without_effect() {
    let (amms, mut ledger, mut breaker, router) = setup(1_000_000 * ONE);
    let route = vec![hop(HDX, DAI)];

    let r = router.sell(&amms, &mut ledger, &mut breaker, ALICE, HDX, DAI, ONE, 3 * ONE, &route);

    assert_eq!(r, Err(RouterError::TradeLimitReached));
    assert_eq!(ledger.free_balance(HDX, ALICE), 1_000 * ONE);
}

#[test]
fn sell_with_empty_route_should_use_the_stored_default() {
    let (amms, mut ledger, mut breaker, mut router) = setup(1_000_000 * ONE);
    router.force_insert_route(HDX, BTC, vec![hop(HDX, DAI), hop(DAI, BTC)]).unwrap();

    let out = router
        .sell(&amms, &mut ledger, &mut breaker, ALICE, HDX, BTC, 10 * ONE, 0, &Vec::new())
        .unwrap();

    assert_eq!(out, 20 * ONE / 2 * 100 / 65);
}

#[test]
fn sell_without_any_route_should_fail_with_route_not_found() {
    let (amms, mut ledger, mut breaker, router) = setup(1_000_000 * ONE);
    let r = router.sell(&amms, &mut ledger, &mut breaker, ALICE, HDX, BTC, ONE, 0, &Vec::new());
    assert_eq!(r, Err(RouterError::RouteNotFound));
}

#[test]
fn invalid_route_should_be_rejected() {
    let (amms, mut ledger, mut breaker, router) = setup(1_000_000 * ONE);
    // broken continuity: the first hop ends in DAI, the second starts at ETH
    let route = vec![hop(HDX, DAI), hop(ETH, BTC)];
    let r = router.sell(&amms, &mut ledger, &mut breaker, ALICE, HDX, BTC, ONE, 0, &route);
    assert_eq!(r, Err(RouterError::InvalidRoute));
    assert!(!validate_route(&route, HDX, BTC));
    assert!(validate_route(&vec![hop(HDX, DAI), hop(DAI, BTC)], HDX, BTC));
}

#[test]
fn stored_route_is_walked_backwards_for_the_opposite_direction() {
    let (_amms, _ledger, _breaker, mut router) = setup(1_000_000 * ONE);
    router.force_insert_route(BTC, HDX, vec![hop(BTC, DAI), hop(DAI, HDX)]).unwrap();

    let back = router.get_route(HDX, BTC).unwrap();
    assert_eq!(back, vec![hop(HDX, DAI), hop(DAI, BTC)]);

    let there = router.get_route(BTC, HDX).unwrap();
    assert_eq!(there, vec![hop(BTC, DAI), hop(DAI, HDX)]);
}

#[test]
fn inverse_route_turns_the_path_around() {
    let route = vec![hop(HDX, DAI), hop(DAI, BTC)];
    assert_eq!(inverse_route(&route), vec![hop(BTC, DAI), hop(DAI, HDX)]);
}

#[test]
fn set_route_should_reject_an_inferior_replacement() {
    let (amms, ledger, _breaker, mut router) = setup(1_000_000 * ONE);
    // direct hop: 10 HDX -> 20 DAI; detour over ETH loses to rounding
    // and the double conversion
    let probe = ONE + 1;
    router.set_route(&amms, &ledger, HDX, DAI, vec![hop(HDX, DAI)], probe).unwrap();

    let detour = vec![hop(HDX, ETH), hop(ETH, DAI)];
    let r = router.set_route(&amms, &ledger, HDX, DAI, detour, probe);
    assert_eq!(r, Err(RouterError::RouteNotBetter));

    // the direct route may replace itself: it is no worse
    router.set_route(&amms, &ledger, HDX, DAI, vec![hop(HDX, DAI)], probe).unwrap();
}
