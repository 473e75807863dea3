//! Benchmarked weights of the moving-average oracle's operations, as exact
//! arithmetic over the weight model.

use vstd::prelude::*;

use crate::weights::{RocksDbWeight, Weight};

verus! {

/// The weight table measured on the reference hardware.
pub struct HydraWeight;

impl HydraWeight {
    pub fn add_oracle() -> (r: Weight)
        ensures
            r.ref_time == 15_827_000 + 1 * 25_000_000 + 1 * 100_000_000,
            r.proof_size == 2126,
    {
        Weight::from_parts(15_827_000, 2126).saturating_add(RocksDbWeight::reads(1)).saturating_add(RocksDbWeight::writes(1))
    }

    pub fn remove_oracle() -> (r: Weight)
        ensures
            r.ref_time == 31_799_000 + 2 * 25_000_000 + 5 * 100_000_000,
            r.proof_size == 7406,
    {
        Weight::from_parts(31_799_000, 7406).saturating_add(RocksDbWeight::reads(2)).saturating_add(RocksDbWeight::writes(5))
    }

    pub fn on_finalize_no_entry() -> (r: Weight)
        ensures
            r.ref_time == 2_365_000 + 1 * 25_000_000 + 0 * 100_000_000,
            r.proof_size == 7406,
    {
        Weight::from_parts(2_365_000, 7406).saturating_add(RocksDbWeight::reads(1))
    }

    pub fn on_finalize_multiple_tokens(b: u32) -> (r: Weight)
        ensures
            r.ref_time == 9_813_697 + 33_915_148 * b + 25_000_000 + 3 * b * 25_000_000
                + 100_000_000 + 3 * b * 100_000_000,
            r.proof_size == 7406 + 7956 * b,
    {
        Weight::from_parts(9_813_697, 7406)
            .saturating_add(Weight::from_parts(33_915_148, 0).saturating_mul(b as u64))
            .saturating_add(RocksDbWeight::reads(1))
            .saturating_add(RocksDbWeight::reads(3u64 * (b as u64)))
            .saturating_add(RocksDbWeight::writes(1))
            .saturating_add(RocksDbWeight::writes(3u64 * (b as u64)))
            .saturating_add(Weight::from_parts(0, 7956).saturating_mul(b as u64))
    }

    pub fn on_trade_multiple_tokens(b: u32) -> (r: Weight)
        ensures
            r.ref_time == 17_137_924 + 402_614 * b + 3 * 25_000_000 + 100_000_000,
            r.proof_size == 7406,
    {
        Weight::from_parts(17_137_924, 7406)
            .saturating_add(Weight::from_parts(402_614, 0).saturating_mul(b as u64))
            .saturating_add(RocksDbWeight::reads(3))
            .saturating_add(RocksDbWeight::writes(1))
    }

    pub fn on_liquidity_changed_multiple_tokens(b: u32) -> (r: Weight)
        ensures
            r.ref_time == 17_087_683 + 406_220 * b + 3 * 25_000_000 + 100_000_000,
            r.proof_size == 7406,
    {
        Weight::from_parts(17_087_683, 7406)
            .saturating_add(Weight::from_parts(406_220, 0).saturating_mul(b as u64))
            .saturating_add(RocksDbWeight::reads(3))
            .saturating_add(RocksDbWeight::writes(1))
    }

    pub fn get_entry() -> (r: Weight)
        ensures
            r.ref_time == 18_090_000 + 2 * 25_000_000 + 0 * 100_000_000,
            r.proof_size == 6294,
    {
        Weight::from_parts(18_090_000, 6294).saturating_add(RocksDbWeight::reads(2))
    }

}

} // verus!
