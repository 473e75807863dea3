//! Benchmarked weights of the constant-product pool's operations, as exact
//! arithmetic over the weight model.

use vstd::prelude::*;

use crate::weights::{RocksDbWeight, Weight};

verus! {

/// The weight table measured on the reference hardware.
pub struct HydraWeight;

impl HydraWeight {
    pub fn create_pool() -> (r: Weight)
        ensures
            r.ref_time == 592_313_000 + 33 * 25_000_000 + 20 * 100_000_000,
            r.proof_size == 19071,
    {
        Weight::from_parts(592_313_000, 19071).saturating_add(RocksDbWeight::reads(33)).saturating_add(RocksDbWeight::writes(20))
    }

    pub fn add_liquidity() -> (r: Weight)
        ensures
            r.ref_time == 354_898_000 + 27 * 25_000_000 + 14 * 100_000_000,
            r.proof_size == 19071,
    {
        Weight::from_parts(354_898_000, 19071).saturating_add(RocksDbWeight::reads(27)).saturating_add(RocksDbWeight::writes(14))
    }

    pub fn remove_liquidity() -> (r: Weight)
        ensures
            r.ref_time == 525_459_000 + 29 * 25_000_000 + 18 * 100_000_000,
            r.proof_size == 19071,
    {
        Weight::from_parts(525_459_000, 19071).saturating_add(RocksDbWeight::reads(29)).saturating_add(RocksDbWeight::writes(18))
    }

    pub fn sell() -> (r: Weight)
        ensures
            r.ref_time == 308_832_000 + 24 * 25_000_000 + 11 * 100_000_000,
            r.proof_size == 16488,
    {
        Weight::from_parts(308_832_000, 16488).saturating_add(RocksDbWeight::reads(24)).saturating_add(RocksDbWeight::writes(11))
    }

    pub fn buy() -> (r: Weight)
        ensures
            r.ref_time == 306_896_000 + 24 * 25_000_000 + 11 * 100_000_000,
            r.proof_size == 16488,
    {
        Weight::from_parts(306_896_000, 16488).saturating_add(RocksDbWeight::reads(24)).saturating_add(RocksDbWeight::writes(11))
    }

    pub fn router_execution_sell(c: u32, e: u32) -> (r: Weight)
        ensures
            r.ref_time == 9_649_436 + 8_443_704 * c + 289_624_454 * e + 3 * 25_000_000 + 21 * e * 25_000_000 + 11
                * e * 100_000_000,
            r.proof_size == 6156 + 10332 * e,
    {
        Weight::from_parts(9_649_436, 6156)
            .saturating_add(Weight::from_parts(8_443_704, 0).saturating_mul(c as u64))
            .saturating_add(Weight::from_parts(289_624_454, 0).saturating_mul(e as u64))
            .saturating_add(RocksDbWeight::reads(3))
            .saturating_add(RocksDbWeight::reads(21u64 * (e as u64)))
            .saturating_add(RocksDbWeight::writes(11u64 * (e as u64)))
            .saturating_add(Weight::from_parts(0, 10332).saturating_mul(e as u64))
    }

    pub fn router_execution_buy(c: u32, e: u32) -> (r: Weight)
        ensures
            r.ref_time == 11_014_445 + 7_776_697 * c + 287_790_853 * e + 3 * 25_000_000 + 21 * e * 25_000_000 + 11
                * e * 100_000_000,
            r.proof_size == 6156 + 10332 * e,
    {
        Weight::from_parts(11_014_445, 6156)
            .saturating_add(Weight::from_parts(7_776_697, 0).saturating_mul(c as u64))
            .saturating_add(Weight::from_parts(287_790_853, 0).saturating_mul(e as u64))
            .saturating_add(RocksDbWeight::reads(3))
            .saturating_add(RocksDbWeight::reads(21u64 * (e as u64)))
            .saturating_add(RocksDbWeight::writes(11u64 * (e as u64)))
            .saturating_add(Weight::from_parts(0, 10332).saturating_mul(e as u64))
    }

    pub fn calculate_spot_price() -> (r: Weight)
        ensures
            r == (Weight { ref_time: 0, proof_size: 0 }),
    {
        Weight::zero()
    }

}

} // verus!
