//! Benchmarked weights of the referrals pallet's operations, as exact
//! arithmetic over the weight model.

use vstd::prelude::*;

use crate::weights::{RocksDbWeight, Weight};

verus! {

/// The weight table measured on the reference hardware.
pub struct HydraWeight;

impl HydraWeight {
    pub fn register_code() -> (r: Weight)
        ensures
            r.ref_time == 64_488_000 + 4 * 25_000_000 + 5 * 100_000_000,
            r.proof_size == 6196,
    {
        Weight::from_parts(64_488_000, 6196).saturating_add(RocksDbWeight::reads(4)).saturating_add(RocksDbWeight::writes(5))
    }

    pub fn link_code() -> (r: Weight)
        ensures
            r.ref_time == 22_151_000 + 2 * 25_000_000 + 1 * 100_000_000,
            r.proof_size == 3545,
    {
        Weight::from_parts(22_151_000, 3545).saturating_add(RocksDbWeight::reads(2)).saturating_add(RocksDbWeight::writes(1))
    }

    pub fn convert() -> (r: Weight)
        ensures
            r.ref_time == 297_036_000 + 25 * 25_000_000 + 15 * 100_000_000,
            r.proof_size == 7406,
    {
        Weight::from_parts(297_036_000, 7406).saturating_add(RocksDbWeight::reads(25)).saturating_add(RocksDbWeight::writes(15))
    }

    pub fn claim_rewards() -> (r: Weight)
        ensures
            r.ref_time == 89_353_000 + 7 * 25_000_000 + 6 * 100_000_000,
            r.proof_size == 6196,
    {
        Weight::from_parts(89_353_000, 6196).saturating_add(RocksDbWeight::reads(7)).saturating_add(RocksDbWeight::writes(6))
    }

    pub fn set_reward_percentage() -> (r: Weight)
        ensures
            r.ref_time == 15_676_000 + 1 * 25_000_000 + 1 * 100_000_000,
            r.proof_size == 3514,
    {
        Weight::from_parts(15_676_000, 3514).saturating_add(RocksDbWeight::reads(1)).saturating_add(RocksDbWeight::writes(1))
    }

}

} // verus!
