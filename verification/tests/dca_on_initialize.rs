use dex_core::breaker::CircuitBreaker;
use dex_core::dca::{Dca, DcaConfig, ScheduleOutcome};
use dex_core::ledger::Ledger;
use dex_core::omnipool::Omnipool;
use dex_core::stableswap::Stableswap;
use dex_core::xyk::Xyk;
use dex_core::router::{Amms, Router};
use dex_core::types::{DcaError, DcaEvent, Order, PoolType, Schedule, Trade};

const HDX: u32 = 0;
const DAI: u32 = 2;
const BTC: u32 = 3;
const ONE: u128 = 1_000_000_000_000;
const ALICE: u64 = 1;
const POOL_ACCOUNT: u64 = 12;
const TREASURY: u64 = 99;
const FEE: u128 = 2_269_868_000;
const FEE_IN_DAI: u128 = 4_539_736_000;
const ONE_HUNDRED_BLOCKS: u64 = 100;

struct World {
    dca: Dca,
    ledger: Ledger,
    breaker: CircuitBreaker,
    amms: Amms,
    router: Router,
}

fn setup_with_retries(max_retries: u32) -> World {
    let mut ledger = Ledger::new();
    let mut pool = Omnipool::new(POOL_ACCOUNT, 1000);
    pool.add_token(HDX, 1, 1).unwrap();
    pool.add_token(DAI, 1, 2).unwrap();
    pool.add_token(BTC, 65, 100).unwrap();
    for asset in [HDX, DAI, BTC] {
        ledger.deposit(asset, POOL_ACCOUNT, 100_000_000 * ONE).unwrap();
    }
    ledger.deposit(HDX, ALICE, 10_000 * ONE).unwrap();
    ledger.deposit(DAI, ALICE, 5_000 * ONE).unwrap();
    let breaker = CircuitBreaker::new(1_000_000, 1_000_000);
    let config = DcaConfig {
        min_budget: 2_000_000,
        max_schedules_per_block: 20,
        max_retries,
        execution_fee_native: FEE,
        max_price_difference: 100_000,
        default_slippage: 50_000,
        native_asset: HDX,
        fee_receiver: TREASURY,
    };
    World {
        dca: Dca::new(config),
        ledger,
        breaker,
        amms: Amms { omnipool: pool, stableswap: Stableswap::new(), xyk: Xyk::new() },
        router: Router::new(),
    }
}

fn setup() -> World {
    setup_with_retries(3)
}

fn single_hop(asset_in: u32, asset_out: u32) -> Vec<Trade> {
    vec![Trade { pool: PoolType::Omnipool, asset_in, asset_out }]
}

fn sell_schedule(total: u128, asset_in: u32, asset_out: u32, amount_in: u128, min_limit: u128) -> Schedule {
    Schedule {
        owner: ALICE,
        period: ONE_HUNDRED_BLOCKS,
        total_amount: total,
        slippage: None,
        order: Order::Sell {
            asset_in,
            asset_out,
            amount_in,
            min_limit,
            route: single_hop(asset_in, asset_out),
        },
    }
}

fn buy_schedule(total: u128, asset_in: u32, asset_out: u32, amount_out: u128, max_limit: u128) -> Schedule {
    Schedule {
        owner: ALICE,
        period: ONE_HUNDRED_BLOCKS,
        total_amount: total,
        slippage: None,
        order: Order::Buy {
            asset_in,
            asset_out,
            amount_out,
            max_limit,
            route: single_hop(asset_in, asset_out),
        },
    }
}

fn run_block(w: &mut World, block: u64) {
    w.dca.on_initialize(&w.amms, &mut w.ledger, &mut w.breaker, &w.router, block);
}

fn run_blocks(w: &mut World, from: u64, to: u64) {
    for block in from..=to {
        run_block(w, block);
    }
}

fn executed_trades(w: &World) -> usize {
    w.dca.events().iter().filter(|e| matches!(e, DcaEvent::TradeExecuted { .. })).count()
}

fn failed_trades(w: &World) -> usize {
    w.dca.events().iter().filter(|e| matches!(e, DcaEvent::TradeFailed { .. })).count()
}

fn has_completed(w: &World, want: u32) -> bool {
    w.dca.events().iter().any(|e| matches!(e, DcaEvent::Completed { id, .. } if *id == want))
}

#[test]
fn one_sell_dca_execution_should_unreserve_amount_in() {
    let mut w = setup();
    run_blocks(&mut w, 1, 500);
    let total_amount = 5 * ONE;
    let amount_to_sell = ONE;
    let schedule = sell_schedule(total_amount, HDX, BTC, amount_to_sell, 0);
    w.dca.schedule(&mut w.ledger, ALICE, schedule, None, 500).unwrap();
    assert_eq!(total_amount, w.ledger.reserved_balance(HDX, ALICE));

    run_block(&mut w, 501);

    // exactly one execution, consuming exactly amount_in from the reservation
    assert_eq!(executed_trades(&w), 1);
    let remaining_named_reserve = total_amount - amount_to_sell;
    assert_eq!(remaining_named_reserve, w.ledger.reserved_balance(HDX, ALICE));
    // the traded part was amount_in minus the fee, swapped at the spot price
    let expected_btc = (amount_to_sell - FEE) * 100 / 65;
    assert_eq!(w.ledger.free_balance(BTC, ALICE), expected_btc);
    assert_eq!(w.ledger.free_balance(HDX, TREASURY), FEE);
}

#[test]
fn one_buy_dca_execution_should_unreserve_max_limit() {
    let mut w = setup();
    run_blocks(&mut w, 1, 500);
    let total_amount = 5 * ONE;
    let amount_to_buy = ONE;
    let max_limit = ONE * 4 / 5;
    let schedule = buy_schedule(total_amount, HDX, BTC, amount_to_buy, max_limit);
    w.dca.schedule(&mut w.ledger, ALICE, schedule, None, 500).unwrap();
    assert_eq!(total_amount, w.ledger.reserved_balance(HDX, ALICE));

    run_block(&mut w, 501);

    assert_eq!(executed_trades(&w), 1);
    assert_eq!(w.ledger.free_balance(BTC, ALICE), amount_to_buy);
    // the whole effective limit plus the fee leaves the reservation
    assert_eq!(total_amount - max_limit - FEE, w.ledger.reserved_balance(HDX, ALICE));
}

#[test]
fn sell_dca_should_be_completed_when_not_enough_reserved_amount_present() {
    let mut w = setup();
    run_blocks(&mut w, 1, 500);
    let total_amount = 5 * ONE;
    let amount_to_sell = 6 * ONE;
    let schedule = sell_schedule(total_amount, HDX, BTC, amount_to_sell, 0);
    w.dca.schedule(&mut w.ledger, ALICE, schedule, None, 500).unwrap();
    assert_eq!(total_amount, w.ledger.reserved_balance(HDX, ALICE));

    run_block(&mut w, 501);

    assert_eq!(0, w.ledger.reserved_balance(HDX, ALICE));
    assert_eq!(executed_trades(&w), 0);
    assert!(has_completed(&w, 1));
    assert!(w.dca.schedules(1).is_none());
    assert!(
        w.dca.schedule_ids_per_block(601).is_none(),
        "There should be no schedule for the block, but there is"
    );
}

#[test]
fn full_sell_dca_should_be_completed_when_some_successfull_dca_execution_happened_but_no_more_reserved_amount_left() {
    let mut w = setup();
    run_blocks(&mut w, 1, 500);
    let total_amount = 16 * ONE;
    let amount_to_sell = 5 * ONE;
    let schedule = sell_schedule(total_amount, HDX, BTC, amount_to_sell, 0);
    w.dca.schedule(&mut w.ledger, ALICE, schedule, None, 500).unwrap();
    assert_eq!(total_amount, w.ledger.reserved_balance(HDX, ALICE));

    run_blocks(&mut w, 501, 801);

    assert_eq!(0, w.ledger.reserved_balance(HDX, ALICE));
    assert_eq!(executed_trades(&w), 3);
    assert!(has_completed(&w, 1));
    assert!(w.dca.schedules(1).is_none());
}

#[test]
fn full_sell_dca_should_be_completed_when_exact_total_amount_specified_for_the_trades() {
    let mut w = setup();
    run_blocks(&mut w, 1, 500);
    let total_amount = 15 * ONE;
    let amount_to_sell = 5 * ONE;
    let schedule = sell_schedule(total_amount, HDX, BTC, amount_to_sell, 0);
    w.dca.schedule(&mut w.ledger, ALICE, schedule, None, 500).unwrap();
    assert_eq!(total_amount, w.ledger.reserved_balance(HDX, ALICE));

    run_blocks(&mut w, 501, 801);

    assert_eq!(0, w.ledger.reserved_balance(HDX, ALICE));
    assert_eq!(executed_trades(&w), 3);
    assert!(has_completed(&w, 1));
}

#[test]
fn full_buy_dca_should_be_completed_when_not_enough_reserved_amount() {
    let mut w = setup();
    run_blocks(&mut w, 1, 500);
    let total_amount = ONE / 1000;
    let amount_to_buy = ONE;
    let schedule = buy_schedule(total_amount, HDX, BTC, amount_to_buy, 0);
    w.dca.schedule(&mut w.ledger, ALICE, schedule, None, 500).unwrap();
    assert_eq!(total_amount, w.ledger.reserved_balance(HDX, ALICE));

    run_block(&mut w, 501);

    assert_eq!(executed_trades(&w), 0);
    assert_eq!(0, w.ledger.reserved_balance(HDX, ALICE));
    assert!(has_completed(&w, 1));
    assert!(w.dca.schedules(1).is_none());
}

#[test]
fn full_buy_dca_should_be_completed_when_some_execution_is_successfull_but_not_enough_balance() {
    let mut w = setup();
    run_blocks(&mut w, 1, 500);
    let total_amount = 5 * ONE;
    let amount_to_buy = ONE;
    let schedule = buy_schedule(total_amount, HDX, BTC, amount_to_buy, 0);
    w.dca.schedule(&mut w.ledger, ALICE, schedule, None, 500).unwrap();

    run_blocks(&mut w, 501, 2001);

    // the slippage-derived limit plus the fee is consumed per execution:
    // 682_500_000_000 + FEE each time, seven times out of 5 * ONE
    assert_eq!(executed_trades(&w), 7);
    assert_eq!(0, w.ledger.reserved_balance(HDX, ALICE));
    assert!(has_completed(&w, 1));
}

#[test]
fn one_buy_dca_execution_should_unreserve_max_limit_with_slippage_when_slippage_is_bigger_than_specified_max_limit() {
    let mut w = setup();
    run_blocks(&mut w, 1, 500);
    let total_amount = 5 * ONE;
    let amount_to_buy = ONE;
    let max_limit_calculated_from_spot_price: u128 = 682_500_000_000;
    let schedule = buy_schedule(total_amount, HDX, BTC, amount_to_buy, 0);
    w.dca.schedule(&mut w.ledger, ALICE, schedule, None, 500).unwrap();
    assert_eq!(total_amount, w.ledger.reserved_balance(HDX, ALICE));

    run_block(&mut w, 501);

    assert_eq!(executed_trades(&w), 1);
    assert_eq!(
        total_amount - max_limit_calculated_from_spot_price - FEE,
        w.ledger.reserved_balance(HDX, ALICE)
    );
}

#[test]
fn nothing_should_happen_when_no_schedule_in_storage_for_block() {
    let mut w = setup();
    run_blocks(&mut w, 1, 500);
    assert!(w.dca.schedules(1).is_none());
    assert_eq!(w.dca.events().len(), 0);
}

#[test]
fn schedule_is_planned_for_next_block_when_user_one_execution_finished() {
    let mut w = setup();
    run_blocks(&mut w, 1, 500);
    let schedule = buy_schedule(10_000 * ONE, HDX, BTC, ONE, ONE);
    w.dca.schedule(&mut w.ledger, ALICE, schedule, None, 500).unwrap();

    run_block(&mut w, 501);

    assert_eq!(executed_trades(&w), 1);
    assert_eq!(*w.dca.schedule_ids_per_block(601).unwrap(), vec![1]);
}

#[test]
fn schedule_is_planned_with_period_when_block_has_already_planned_schedule() {
    let mut w = setup();
    let schedule = buy_schedule(5_000 * ONE, HDX, BTC, ONE, ONE);
    w.dca.schedule(&mut w.ledger, ALICE, schedule, Some(601), 0).unwrap();

    run_blocks(&mut w, 1, 500);
    let schedule_2 = buy_schedule(5_000 * ONE, HDX, BTC, ONE, ONE);
    w.dca.schedule(&mut w.ledger, ALICE, schedule_2, None, 500).unwrap();

    run_block(&mut w, 501);

    assert_eq!(*w.dca.schedule_ids_per_block(601).unwrap(), vec![1, 2]);
}

#[test]
fn dca_schedule_is_suspended_in_block_when_trade_fails_with_insufficient_trade_limit() {
    // one allowed attempt, so the first failure suspends
    let mut w = setup_with_retries(1);
    run_blocks(&mut w, 1, 500);
    // an amount below the pool's minimal trading limit must fail
    let schedule = buy_schedule(10_000 * ONE, HDX, BTC, 0, 5 * ONE);
    w.dca.schedule(&mut w.ledger, ALICE, schedule, None, 500).unwrap();

    run_block(&mut w, 501);

    assert_eq!(executed_trades(&w), 0);
    assert!(w.dca.suspended(1));
    assert!(w.dca.events().iter().any(|e| matches!(e, DcaEvent::Suspended { id: 1, who: ALICE })));
}

#[test]
fn dca_should_not_be_executed_when_schedule_is_paused_after_one_execution() {
    let mut w = setup();
    run_blocks(&mut w, 1, 500);
    let schedule = buy_schedule(10_000 * ONE, HDX, BTC, ONE, 5 * ONE);
    w.dca.schedule(&mut w.ledger, ALICE, schedule, None, 500).unwrap();
    assert_eq!(w.ledger.free_balance(BTC, ALICE), 0);

    run_block(&mut w, 501);
    assert_eq!(executed_trades(&w), 1);

    w.dca.pause(ALICE, 1, 601).unwrap();
    run_blocks(&mut w, 502, 901);

    assert_eq!(executed_trades(&w), 1);
    assert!(w.dca.suspended(1));
}

#[test]
fn execution_fee_should_be_taken_from_user_in_sold_currency_in_case_of_successful_buy_trade() {
    let mut w = setup();
    run_blocks(&mut w, 1, 500);
    let schedule = buy_schedule(5_000 * ONE, DAI, BTC, ONE, 5 * ONE);
    w.dca.schedule(&mut w.ledger, ALICE, schedule, None, 500).unwrap();

    assert_eq!(w.ledger.free_balance(DAI, TREASURY), 0);
    run_block(&mut w, 501);

    assert_eq!(w.ledger.free_balance(DAI, TREASURY), FEE_IN_DAI);
    assert_eq!(executed_trades(&w), 1);
}

#[test]
fn execution_fee_should_be_still_taken_from_user_in_sold_currency_in_case_of_failed_trade() {
    let mut w = setup();
    run_blocks(&mut w, 1, 500);
    // an amount below the pool's minimal trading limit must fail
    let schedule = buy_schedule(5_000 * ONE, DAI, BTC, 0, 5 * ONE);
    w.dca.schedule(&mut w.ledger, ALICE, schedule, None, 500).unwrap();

    assert_eq!(w.ledger.free_balance(DAI, TREASURY), 0);
    assert_eq!(w.ledger.free_balance(BTC, ALICE), 0);
    run_block(&mut w, 501);

    assert_eq!(w.ledger.free_balance(DAI, TREASURY), FEE_IN_DAI);
    assert_eq!(executed_trades(&w), 0);
    assert_eq!(failed_trades(&w), 1);
}

#[test]
fn execution_fee_should_be_taken_from_user_in_sold_currency_in_case_of_successful_sell_trade() {
    let mut w = setup();
    run_blocks(&mut w, 1, 500);
    let amount_in = 100 * ONE;
    let schedule = sell_schedule(5_000 * ONE, DAI, BTC, amount_in, 0);
    w.dca.schedule(&mut w.ledger, ALICE, schedule, None, 500).unwrap();

    assert_eq!(w.ledger.free_balance(DAI, TREASURY), 0);
    run_block(&mut w, 501);

    assert_eq!(w.ledger.free_balance(DAI, TREASURY), FEE_IN_DAI);
    assert_eq!(executed_trades(&w), 1);
    // the trade itself ran on the amount with the fee already taken out
    let expected_btc = (amount_in - FEE_IN_DAI) / 2 * 100 / 65;
    assert_eq!(w.ledger.free_balance(BTC, ALICE), expected_btc);
}

#[test]
fn slippage_limit_should_be_used_for_sell_dca_when_it_is_smaller_than_specified_trade_min_limit() {
    let mut w = setup();
    run_blocks(&mut w, 1, 500);
    let sell_amount = 10 * ONE;
    // a stated minimum of the maximum balance would never clear; the
    // slippage-derived floor of 19 * ONE takes its place
    let schedule = sell_schedule(10_000 * ONE, HDX, DAI, sell_amount, u128::MAX);
    w.dca.schedule(&mut w.ledger, ALICE, schedule, None, 500).unwrap();

    run_block(&mut w, 501);

    assert_eq!(executed_trades(&w), 1);
    let received = w.ledger.free_balance(DAI, ALICE) - 5_000 * ONE;
    assert!(received >= 19_000_000_000_000);
}

#[test]
fn slippage_limit_should_be_used_for_buy_dca_when_it_is_bigger_than_specified_trade_max_limit() {
    let mut w = setup();
    run_blocks(&mut w, 1, 500);
    let buy_amount = 10 * ONE;
    // a stated maximum of zero would never clear; the slippage-derived
    // cap of 5.25 * ONE takes its place
    let max_limit_calculated_from_spot_price: u128 = 5_250_000_000_000;
    let schedule = buy_schedule(10_000 * ONE, HDX, DAI, buy_amount, 0);
    w.dca.schedule(&mut w.ledger, ALICE, schedule, None, 500).unwrap();
    let reserved_before = w.ledger.reserved_balance(HDX, ALICE);

    run_block(&mut w, 501);

    assert_eq!(executed_trades(&w), 1);
    assert_eq!(
        reserved_before - max_limit_calculated_from_spot_price - FEE,
        w.ledger.reserved_balance(HDX, ALICE)
    );
    assert_eq!(w.ledger.free_balance(DAI, ALICE), 5_000 * ONE + buy_amount);
}

#[test]
fn schedule_should_be_suspended_after_max_number_of_retries_with_fee_deducted_each_attempt() {
    let mut w = setup();
    run_blocks(&mut w, 1, 500);
    let total_amount = 10_000 * ONE;
    // an amount below the pool's minimal trading limit fails every attempt
    let schedule = buy_schedule(total_amount, HDX, BTC, 0, 5 * ONE);
    w.dca.schedule(&mut w.ledger, ALICE, schedule, None, 500).unwrap();

    // attempts run at 501 and at exponentially backed-off retry blocks
    run_blocks(&mut w, 501, 520);

    assert_eq!(failed_trades(&w), 3);
    assert!(w.dca.suspended(1));
    assert_eq!(w.dca.retry_count(1), 3);
    assert_eq!(w.ledger.free_balance(HDX, TREASURY), 3 * FEE);
    assert_eq!(w.ledger.reserved_balance(HDX, ALICE), total_amount - 3 * FEE);
}

#[test]
fn schedule_is_replanned_to_next_free_block_when_target_block_is_full() {
    let mut w = setup();
    // fill every slot of block 601
    for _ in 0..20 {
        let schedule = buy_schedule(ONE, HDX, BTC, ONE, ONE);
        w.dca.schedule(&mut w.ledger, ALICE, schedule, Some(601), 0).unwrap();
    }
    assert_eq!(w.dca.schedule_ids_per_block(601).unwrap().len(), 20);

    // one more for the same block lands at the first free probe offset:
    // 601 + 2^1 - 1
    let schedule = buy_schedule(ONE, HDX, BTC, ONE, ONE);
    w.dca.schedule(&mut w.ledger, ALICE, schedule, Some(601), 0).unwrap();

    assert_eq!(w.dca.schedule_ids_per_block(601).unwrap().len(), 20);
    assert_eq!(*w.dca.schedule_ids_per_block(602).unwrap(), vec![21]);
}

#[test]
fn price_deviation_guard_should_skip_execution_without_fee() {
    let mut w = setup();
    run_blocks(&mut w, 1, 500);
    // the oracle says twice the pool's price for the pair
    w.dca.set_oracle_price(HDX, BTC, 400, 130);
    let schedule = sell_schedule(5 * ONE, HDX, BTC, ONE, 0);
    w.dca.schedule(&mut w.ledger, ALICE, schedule, None, 500).unwrap();

    run_block(&mut w, 501);

    assert_eq!(executed_trades(&w), 0);
    assert_eq!(failed_trades(&w), 1);
    // no fee and no budget was consumed
    assert_eq!(w.ledger.free_balance(HDX, TREASURY), 0);
    assert_eq!(w.ledger.reserved_balance(HDX, ALICE), 5 * ONE);
    assert_eq!(w.dca.schedules(1).unwrap().total_amount, 5 * ONE);
}

#[test]
fn price_deviation_guard_should_pass_when_oracle_agrees_with_spot() {
    let mut w = setup();
    run_blocks(&mut w, 1, 500);
    // oracle within ten percent of the pool's spot price of 100/65
    w.dca.set_oracle_price(HDX, BTC, 95, 65);
    let schedule = sell_schedule(5 * ONE, HDX, BTC, ONE, 0);
    w.dca.schedule(&mut w.ledger, ALICE, schedule, None, 500).unwrap();

    run_block(&mut w, 501);

    assert_eq!(executed_trades(&w), 1);
}

#[test]
fn terminate_should_release_the_remaining_reservation() {
    let mut w = setup();
    run_blocks(&mut w, 1, 500);
    let total_amount = 5 * ONE;
    let schedule = sell_schedule(total_amount, HDX, BTC, ONE, 0);
    w.dca.schedule(&mut w.ledger, ALICE, schedule, None, 500).unwrap();
    run_block(&mut w, 501);

    let released = w.dca.terminate(&mut w.ledger, Some(ALICE), 1, Some(601)).unwrap();

    assert_eq!(released, total_amount - ONE);
    assert_eq!(w.ledger.reserved_balance(HDX, ALICE), 0);
    assert!(w.dca.schedules(1).is_none());
    run_blocks(&mut w, 502, 901);
    assert_eq!(executed_trades(&w), 1);
}

#[test]
fn resume_should_replan_a_paused_schedule() {
    let mut w = setup();
    run_blocks(&mut w, 1, 500);
    let schedule = buy_schedule(10_000 * ONE, HDX, BTC, ONE, 5 * ONE);
    w.dca.schedule(&mut w.ledger, ALICE, schedule, None, 500).unwrap();
    run_block(&mut w, 501);
    w.dca.pause(ALICE, 1, 601).unwrap();
    run_blocks(&mut w, 502, 700);
    assert_eq!(executed_trades(&w), 1);

    let planned = w.dca.resume(ALICE, 1, 700).unwrap();
    assert_eq!(planned, 701);
    run_block(&mut w, 701);

    assert_eq!(executed_trades(&w), 2);
}

#[test]
fn schedule_should_reject_invalid_submissions() {
    let mut w = setup();
    run_blocks(&mut w, 1, 500);

    // wrong origin: the caller must own the schedule
    let s = sell_schedule(5 * ONE, HDX, BTC, ONE, 0);
    assert_eq!(w.dca.schedule(&mut w.ledger, TREASURY, s, None, 500), Err(DcaError::Forbidden));

    // a budget below the configured minimum
    let s = sell_schedule(1_999_999, HDX, BTC, ONE, 0);
    assert_eq!(
        w.dca.schedule(&mut w.ledger, ALICE, s, None, 500),
        Err(DcaError::InsufficientBudget)
    );

    // the same asset on both sides of the order
    let s = sell_schedule(5 * ONE, HDX, HDX, ONE, 0);
    assert_eq!(
        w.dca.schedule(&mut w.ledger, ALICE, s, None, 500),
        Err(DcaError::InvalidScheduleOrderData)
    );

    // a zero period can never recur
    let mut s = sell_schedule(5 * ONE, HDX, BTC, ONE, 0);
    s.period = 0;
    assert_eq!(
        w.dca.schedule(&mut w.ledger, ALICE, s, None, 500),
        Err(DcaError::InvalidScheduleOrderData)
    );

    // a route that does not end at the order's output asset
    let mut s = sell_schedule(5 * ONE, HDX, BTC, ONE, 0);
    s.order = Order::Sell { asset_in: HDX, asset_out: BTC, amount_in: ONE, min_limit: 0, route: single_hop(HDX, DAI) };
    assert_eq!(
        w.dca.schedule(&mut w.ledger, ALICE, s, None, 500),
        Err(DcaError::InvalidScheduleOrderData)
    );

    // the first execution must lie in the future
    let s = sell_schedule(5 * ONE, HDX, BTC, ONE, 0);
    assert_eq!(
        w.dca.schedule(&mut w.ledger, ALICE, s, Some(500), 500),
        Err(DcaError::BlockNumberIsNotInFuture)
    );

    // a budget the owner's balance cannot back
    let s = sell_schedule(20_000 * ONE, HDX, BTC, ONE, 0);
    assert_eq!(
        w.dca.schedule(&mut w.ledger, ALICE, s, None, 500),
        Err(DcaError::InsufficientBalance)
    );

    // nothing was recorded by any of the rejections
    assert!(w.dca.schedules(1).is_none());
    assert_eq!(w.ledger.reserved_balance(HDX, ALICE), 0);
}

#[test]
fn budget_is_conserved_over_a_schedule_whole_life() {
    let mut w = setup();
    run_blocks(&mut w, 1, 500);
    let initial_total = 16 * ONE;
    let schedule = sell_schedule(initial_total, HDX, BTC, 5 * ONE, 0);
    w.dca.schedule(&mut w.ledger, ALICE, schedule, None, 500).unwrap();

    // at every point of the schedule's life, what was consumed and
    // released so far plus the remaining budget equals the initial budget
    let mut spent: u128 = 0;
    for block in 501..=801 {
        let outcomes =
            w.dca.on_initialize(&w.amms, &mut w.ledger, &mut w.breaker, &w.router, block);
        for (outcome_id, outcome) in outcomes {
            assert_eq!(outcome_id, 1);
            match outcome {
                ScheduleOutcome::Skipped => (),
                ScheduleOutcome::Completed { consumed, released } => spent += consumed + released,
                ScheduleOutcome::Executed { consumed, released } => spent += consumed + released,
                ScheduleOutcome::Failed { consumed, released, .. } => spent += consumed + released,
            }
        }
        let remaining = match w.dca.schedules(1) {
            Some(s) => s.total_amount,
            None => 0,
        };
        assert_eq!(spent + remaining, initial_total);
    }
    assert_eq!(spent, initial_total);
    assert!(w.dca.schedules(1).is_none());
}
