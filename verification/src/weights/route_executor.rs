//! Benchmarked weights of the route executor's operations, as exact
//! arithmetic over the weight model.

use vstd::prelude::*;

use crate::weights::{RocksDbWeight, Weight};

verus! {

/// The weight table measured on the reference hardware.
pub struct HydraWeight;

impl HydraWeight {
    pub fn skip_ed_handling_for_trade_with_insufficient_assets() -> (r: Weight)
        ensures
            r.ref_time == 13_900_000 + 1 * 25_000_000 + 1 * 100_000_000,
            r.proof_size == 3590,
    {
        Weight::from_parts(13_900_000, 3590).saturating_add(RocksDbWeight::reads(1)).saturating_add(RocksDbWeight::writes(1))
    }

    pub fn calculate_and_execute_sell_in_lbp(c: u32) -> (r: Weight)
        ensures
            r.ref_time == 284_606_595 + 34_052_591 * c + 17 * 25_000_000 + 7 * 100_000_000,
            r.proof_size == 13905,
    {
        Weight::from_parts(284_606_595, 13905)
            .saturating_add(Weight::from_parts(34_052_591, 0).saturating_mul(c as u64))
            .saturating_add(RocksDbWeight::reads(17))
            .saturating_add(RocksDbWeight::writes(7))
    }

    pub fn calculate_and_execute_buy_in_lbp(c: u32, b: u32) -> (r: Weight)
        ensures
            r.ref_time == 54_339_000 + 1_659_710 * c + 236_379_793 * b + 3 * 25_000_000 + 14 * b
                * 25_000_000 + 7 * b * 100_000_000,
            r.proof_size == 6156 + 7749 * b,
    {
        Weight::from_parts(54_339_000, 6156)
            .saturating_add(Weight::from_parts(1_659_710, 0).saturating_mul(c as u64))
            .saturating_add(Weight::from_parts(236_379_793, 0).saturating_mul(b as u64))
            .saturating_add(RocksDbWeight::reads(3))
            .saturating_add(RocksDbWeight::reads(14u64 * (b as u64)))
            .saturating_add(RocksDbWeight::writes(7u64 * (b as u64)))
            .saturating_add(Weight::from_parts(0, 7749).saturating_mul(b as u64))
    }

    pub fn set_route_for_xyk() -> (r: Weight)
        ensures
            r.ref_time == 2_111_539_000 + 56 * 25_000_000 + 1 * 100_000_000,
            r.proof_size == 39735,
    {
        Weight::from_parts(2_111_539_000, 39735).saturating_add(RocksDbWeight::reads(56)).saturating_add(RocksDbWeight::writes(1))
    }

    pub fn force_insert_route() -> (r: Weight)
        ensures
            r.ref_time == 24_050_000 + 0 * 25_000_000 + 1 * 100_000_000,
            r.proof_size == 0,
    {
        Weight::from_parts(24_050_000, 0).saturating_add(RocksDbWeight::writes(1))
    }

}

} // verus!
