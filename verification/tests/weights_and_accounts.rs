use dex_core::account::AssetPairAccountIdTest;
use dex_core::weights::ema_oracle;
use dex_core::weights::referrals;
use dex_core::weights::route_executor;
use dex_core::weights::xyk;
use dex_core::weights::{ExtrinsicBaseWeight, RocksDbWeight, Weight};

#[test]
fn weight_arithmetic_should_saturate() {
    let big = Weight::from_parts(u64::MAX - 1, 10);
    let sum = big.saturating_add(Weight::from_parts(5, 5));
    assert_eq!(sum.ref_time, u64::MAX);
    assert_eq!(sum.proof_size, 15);
    let product = Weight::from_parts(u64::MAX / 2 + 1, 1).saturating_mul(2);
    assert_eq!(product.ref_time, u64::MAX);
    assert_eq!(product.proof_size, 2);
}

#[test]
fn db_weights_should_charge_per_access() {
    assert_eq!(RocksDbWeight::reads(4).ref_time, 100_000_000);
    assert_eq!(RocksDbWeight::writes(3).ref_time, 300_000_000);
    assert_eq!(RocksDbWeight::reads(4).proof_size, 0);
}

#[test]
fn route_executor_weights_should_match_the_measured_table() {
    let w = route_executor::HydraWeight::skip_ed_handling_for_trade_with_insufficient_assets();
    assert_eq!(w.ref_time, 13_900_000 + 25_000_000 + 100_000_000);
    assert_eq!(w.proof_size, 3590);

    let w = route_executor::HydraWeight::calculate_and_execute_sell_in_lbp(1);
    assert_eq!(w.ref_time, 284_606_595 + 34_052_591 + 17 * 25_000_000 + 7 * 100_000_000);
    assert_eq!(w.proof_size, 13905);

    let w = route_executor::HydraWeight::calculate_and_execute_buy_in_lbp(2, 1);
    assert_eq!(
        w.ref_time,
        54_339_000 + 2 * 1_659_710 + 236_379_793 + 3 * 25_000_000 + 14 * 25_000_000
            + 7 * 100_000_000
    );
    assert_eq!(w.proof_size, 6156 + 7749);

    let w = route_executor::HydraWeight::force_insert_route();
    assert_eq!(w.ref_time, 24_050_000 + 100_000_000);
    assert_eq!(w.proof_size, 0);

    let w = route_executor::HydraWeight::set_route_for_xyk();
    assert_eq!(w.ref_time, 2_111_539_000 + 56 * 25_000_000 + 100_000_000);
}

#[test]
fn oracle_and_referrals_weights_should_match_the_measured_table() {
    let w = ema_oracle::HydraWeight::on_finalize_multiple_tokens(2);
    assert_eq!(
        w.ref_time,
        9_813_697 + 2 * 33_915_148 + 25_000_000 + 6 * 25_000_000 + 100_000_000 + 6 * 100_000_000
    );
    assert_eq!(w.proof_size, 7406 + 2 * 7956);
    assert_eq!(ema_oracle::HydraWeight::get_entry().ref_time, 18_090_000 + 50_000_000);

    let w = referrals::HydraWeight::register_code();
    assert_eq!(w.ref_time, 64_488_000 + 4 * 25_000_000 + 5 * 100_000_000);
    assert_eq!(w.proof_size, 6196);
}

#[test]
fn xyk_weights_should_match_the_measured_table() {
    let w = xyk::HydraWeight::sell();
    assert_eq!(w.ref_time, 308_832_000 + 24 * 25_000_000 + 11 * 100_000_000);
    assert_eq!(w.proof_size, 16488);

    let w = xyk::HydraWeight::router_execution_sell(1, 1);
    assert_eq!(
        w.ref_time,
        9_649_436 + 8_443_704 + 289_624_454 + 3 * 25_000_000 + 21 * 25_000_000
            + 11 * 100_000_000
    );
    assert_eq!(w.proof_size, 6156 + 10332);

    assert_eq!(xyk::HydraWeight::calculate_spot_price(), Weight::from_parts(0, 0));
}

#[test]
fn extrinsic_base_weight_is_the_flat_charge() {
    assert_eq!(ExtrinsicBaseWeight::get(), 791_984_000);
}

#[test]
fn asset_pair_account_is_order_independent() {
    assert_eq!(AssetPairAccountIdTest::from_assets(1, 2), 1002);
    assert_eq!(AssetPairAccountIdTest::from_assets(2, 1), 1002);
    assert_eq!(AssetPairAccountIdTest::from_assets(3000, 2000), 2_003_000);
    assert_eq!(
        AssetPairAccountIdTest::from_assets(u32::MAX, u32::MAX),
        u32::MAX as u64 * 1000 + u32::MAX as u64
    );
}
