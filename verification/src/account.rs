//! Deterministic derivation of the account that holds an asset pair's
//! funds: the same pair gives the same account whichever way round it
//! is named.

use vstd::prelude::*;

use crate::types::{AccountId, AssetId};

verus! {

/// Derives a pair's account from the two asset identifiers.
pub struct AssetPairAccountIdTest;

impl AssetPairAccountIdTest {
    /// The pair's account: the smaller identifier times a thousand plus
    /// the larger, so the derivation is order-independent.
    pub fn from_assets(asset_a: AssetId, asset_b: AssetId) -> (r: AccountId)
        ensures
            r == if asset_a <= asset_b {
                asset_a * 1000 + asset_b
            } else {
                asset_b * 1000 + asset_a
            },
    {
        let a = asset_a as u64;
        let b = asset_b as u64;
        if a > b {
            b * 1000 + a
        } else {
            a * 1000 + b
        }
    }
}

} // verus!
