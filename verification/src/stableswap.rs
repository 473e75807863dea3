//! A stableswap pool implementing the trade-execution interface.
//!
//! The curve invariant itself is the business of an outside mathematics
//! crate and is treated as a black box: each call's result is given a
//! name, and the contracts of this module are exact over those names.
//! The module answers `NotSupported` for every pool type but its own,
//! so implementations can be chained behind the common interface.

use std::collections::BTreeMap;
use vstd::prelude::*;

use crate::breaker::CircuitBreaker;
use crate::ledger::Ledger;
use crate::types::{AccountId, AmmError, AssetId, Balance, ExecutorError, PoolType};

verus! {

broadcast use vstd::laws_cmp::group_laws_cmp;

/// Newton-iteration depth for the invariant `D`.
pub const D_ITERATIONS: u8 = 128;

/// Newton-iteration depth for the reserve `Y`.
pub const Y_ITERATIONS: u8 = 64;

/// Convergence precision handed to the iteration.
pub const STABLESWAP_PRECISION: Balance = 1;

/// What the curve returns for a swap out-amount; a function of the
/// reserves, the in-amount and the amplification alone.
pub uninterp spec fn stable_out_given_in(
    reserve_in: Balance,
    reserve_out: Balance,
    amount_in: Balance,
    amplification: Balance,
) -> Option<Balance>;

/// What the curve returns for a swap in-amount.
pub uninterp spec fn stable_in_given_out(
    reserve_in: Balance,
    reserve_out: Balance,
    amount_out: Balance,
    amplification: Balance,
) -> Option<Balance>;

/// What the curve returns for shares minted by a liquidity add.
pub uninterp spec fn stable_add_liquidity_shares(
    initial_a: Balance,
    initial_b: Balance,
    updated_a: Balance,
    updated_b: Balance,
    amplification: Balance,
    share_issuance: Balance,
) -> Option<Balance>;

/// Relies on hydra_dx_math::stableswap::math::calculate_out_given_in:
/// the out-amount of a two-asset stableswap swap; `None` when the
/// iteration fails or an intermediate overflows; never more than the
/// output reserve, from which it is subtracted.
#[verifier::external_body]
fn math_out_given_in(
    reserve_in: Balance,
    reserve_out: Balance,
    amount_in: Balance,
    amplification: Balance,
) -> (r: Option<Balance>)
    ensures
        r == stable_out_given_in(reserve_in, reserve_out, amount_in, amplification),
        r matches Some(v) ==> v <= reserve_out,
{
    hydra_dx_math::stableswap::math::calculate_out_given_in::<D_ITERATIONS, Y_ITERATIONS>(
        reserve_in,
        reserve_out,
        amount_in,
        amplification,
        STABLESWAP_PRECISION,
    )
}

/// Relies on hydra_dx_math::stableswap::math::calculate_in_given_out:
/// the in-amount of a two-asset stableswap swap; `None` when the
/// iteration fails or an intermediate overflows.
#[verifier::external_body]
fn math_in_given_out(
    reserve_in: Balance,
    reserve_out: Balance,
    amount_out: Balance,
    amplification: Balance,
) -> (r: Option<Balance>)
    ensures
        r == stable_in_given_out(reserve_in, reserve_out, amount_out, amplification),
{
    hydra_dx_math::stableswap::math::calculate_in_given_out::<D_ITERATIONS, Y_ITERATIONS>(
        reserve_in,
        reserve_out,
        amount_out,
        amplification,
        STABLESWAP_PRECISION,
    )
}

/// Relies on
/// hydra_dx_math::stableswap::math::calculate_add_liquidity_shares: the
/// share amount minted for moving the reserves from the initial to the
/// updated state; `None` when the iteration fails, an intermediate
/// overflows, or the invariant would shrink.
#[verifier::external_body]
fn math_add_liquidity_shares(
    initial_a: Balance,
    initial_b: Balance,
    updated_a: Balance,
    updated_b: Balance,
    amplification: Balance,
    share_issuance: Balance,
) -> (r: Option<Balance>)
    ensures
        r == stable_add_liquidity_shares(
            initial_a,
            initial_b,
            updated_a,
            updated_b,
            amplification,
            share_issuance,
        ),
{
    hydra_dx_math::stableswap::math::calculate_add_liquidity_shares::<D_ITERATIONS>(
        &[initial_a, initial_b],
        &[updated_a, updated_b],
        amplification,
        STABLESWAP_PRECISION,
        share_issuance,
    )
}

/// A proportional withdrawal of both reserves of a pool.
#[derive(Clone, Copy, Debug, PartialEq, Eq, Structural)]
pub struct WithdrawnAmounts {
    pub amount_a: Balance,
    pub amount_b: Balance,
}

/// Whether a proportional withdrawal of `shares` can be computed: some
/// shares exist and both quotients fit the balance type.
pub open spec fn share_withdrawal_fits(
    reserve_a: Balance,
    reserve_b: Balance,
    shares: Balance,
    share_issuance: Balance,
) -> bool {
    share_issuance > 0 && reserve_a * shares / (share_issuance as int) <= Balance::MAX
        && reserve_b * shares / (share_issuance as int) <= Balance::MAX
}

/// `floor(reserve * shares / issuance)`: one leg of a proportional
/// withdrawal.
pub open spec fn share_withdrawal_amount(
    reserve: Balance,
    shares: Balance,
    share_issuance: Balance,
) -> Balance {
    (reserve * shares / (share_issuance as int)) as Balance
}

/// Relies on
/// hydra_dx_math::stableswap::math::calculate_remove_liquidity_amounts:
/// the proportional withdrawal `floor(reserve * shares / issuance)` of
/// each reserve, computed in double width; `None` when the issuance is
/// zero or a quotient overflows the balance type.
#[verifier::external_body]
fn math_remove_liquidity_amounts(
    reserve_a: Balance,
    reserve_b: Balance,
    shares: Balance,
    share_issuance: Balance,
) -> (r: Option<WithdrawnAmounts>)
    ensures
        r == if share_withdrawal_fits(reserve_a, reserve_b, shares, share_issuance) {
            Some(
                (WithdrawnAmounts {
                    amount_a: share_withdrawal_amount(reserve_a, shares, share_issuance),
                    amount_b: share_withdrawal_amount(reserve_b, shares, share_issuance),
                }),
            )
        } else {
            None::<WithdrawnAmounts>
        },
{
    hydra_dx_math::stableswap::math::calculate_remove_liquidity_amounts(
        &[reserve_a, reserve_b],
        shares,
        share_issuance,
    )
        .map(|amounts| WithdrawnAmounts { amount_a: amounts.0, amount_b: amounts.1 })
}

/// One two-asset stableswap pool: the asset pair, the amplification of
/// its curve, and the issuance of its share asset. The reserve account
/// is derived from the share asset, so it exists independently of the
/// pool's registration.
#[derive(Clone, Copy, Debug, PartialEq, Eq, Structural)]
pub struct StableswapPool {
    pub account: AccountId,
    pub asset_a: AssetId,
    pub asset_b: AssetId,
    pub amplification: Balance,
    pub share_issuance: Balance,
}

/// Offset placing the derived pool accounts beyond every 32-bit account.
pub const STABLESWAP_ACCOUNT_SEED: AccountId = 0x1_0000_0000;

/// The reserve account of the pool addressed by `pool_id`: a fixed,
/// injective derivation from the share asset.
pub fn pool_account_of(pool_id: AssetId) -> (r: AccountId)
    ensures
        r == STABLESWAP_ACCOUNT_SEED + pool_id,
{
    STABLESWAP_ACCOUNT_SEED + pool_id as AccountId
}

/// The stableswap pools, keyed by their share asset.
pub struct Stableswap {
    pools: BTreeMap<AssetId, StableswapPool>,
}

/// What a sale of the share asset yields: the seller's proportional
/// share of both reserves, with the counter leg swapped into the wanted
/// asset inside the pool — a one-asset withdrawal composed from the
/// curve crate's proportional withdrawal and its swap.
pub open spec fn spec_share_withdrawal(
    pool: StableswapPool,
    reserve_a: Balance,
    reserve_b: Balance,
    asset_out: AssetId,
    amount_in: Balance,
) -> Result<Balance, ExecutorError> {
    if amount_in > pool.share_issuance {
        Err(ExecutorError::Error(AmmError::InsufficientLiquidity))
    } else if !share_withdrawal_fits(reserve_a, reserve_b, amount_in, pool.share_issuance) {
        Err(ExecutorError::Error(AmmError::Overflow))
    } else {
        let wa = share_withdrawal_amount(reserve_a, amount_in, pool.share_issuance);
        let wb = share_withdrawal_amount(reserve_b, amount_in, pool.share_issuance);
        if wa > reserve_a || wb > reserve_b {
            Err(ExecutorError::Error(AmmError::Overflow))
        } else {
            let w_out = if asset_out == pool.asset_a {
                wa
            } else {
                wb
            };
            let w_other = if asset_out == pool.asset_a {
                wb
            } else {
                wa
            };
            let r_out2 = if asset_out == pool.asset_a {
                (reserve_a - wa) as Balance
            } else {
                (reserve_b - wb) as Balance
            };
            let r_other2 = if asset_out == pool.asset_a {
                (reserve_b - wb) as Balance
            } else {
                (reserve_a - wa) as Balance
            };
            match stable_out_given_in(r_other2, r_out2, w_other, pool.amplification) {
                None => Err(ExecutorError::Error(AmmError::Overflow)),
                Some(sw) => if w_out + sw > Balance::MAX {
                    Err(ExecutorError::Error(AmmError::Overflow))
                } else {
                    Ok((w_out + sw) as Balance)
                },
            }
        }
    }
}

impl Stableswap {
    pub closed spec fn pool_of(&self, pool_id: AssetId) -> Option<StableswapPool> {
        if self.pools@.contains_key(pool_id) {
            Some(self.pools@[pool_id])
        } else {
            None
        }
    }

    /// Every pool trades two distinct assets, neither of them the pool's
    /// own share asset.
    pub open spec fn wf(&self) -> bool {
        forall|p: AssetId|
            #[trigger] self.pool_of(p) is Some ==> self.pool_of(p).unwrap().asset_a
                != self.pool_of(p).unwrap().asset_b && self.pool_of(p).unwrap().asset_a != p
                && self.pool_of(p).unwrap().asset_b != p && self.pool_of(p).unwrap().account
                == STABLESWAP_ACCOUNT_SEED + p
    }

    pub fn new() -> (r: Stableswap)
        ensures
            r.wf(),
            forall|p: AssetId| #[trigger] r.pool_of(p) is None,
    {
        Stableswap { pools: BTreeMap::new() }
    }

    /// Register a pool under its share asset, its reserve account
    /// derived from that asset. The share asset must not be one of the
    /// traded pair, and the pair must be distinct.
    pub fn create_pool(
        &mut self,
        pool_id: AssetId,
        asset_a: AssetId,
        asset_b: AssetId,
        amplification: Balance,
    ) -> (r: Result<(), AmmError>)
        requires
            old(self).wf(),
        ensures
            final(self).wf(),
            r is Err <==> asset_a == asset_b || pool_id == asset_a || pool_id == asset_b || old(
                self,
            ).pool_of(pool_id) is Some,
            match r {
                Ok(()) => {
                    &&& final(self).pool_of(pool_id) == Some(StableswapPool {
                        account: (STABLESWAP_ACCOUNT_SEED + pool_id) as AccountId,
                        asset_a,
                        asset_b,
                        amplification,
                        share_issuance: 0,
                    })
                    &&& forall|p: AssetId|
                        p != pool_id ==> #[trigger] final(self).pool_of(p) == old(self).pool_of(p)
                },
                Err(e) => {
                    &&& e == AmmError::NotAllowed
                    &&& *final(self) == *old(self)
                },
            },
    {
        if asset_a == asset_b || pool_id == asset_a || pool_id == asset_b {
            return Err(AmmError::NotAllowed);
        }
        if self.pools.contains_key(&pool_id) {
            return Err(AmmError::NotAllowed);
        }
        let account = pool_account_of(pool_id);
        self.pools.insert(
            pool_id,
            StableswapPool { account, asset_a, asset_b, amplification, share_issuance: 0 },
        );
        proof {
            assert forall|p: AssetId| #[trigger] self.pool_of(p) is Some implies self.pool_of(
                p,
            ).unwrap().asset_a != self.pool_of(p).unwrap().asset_b && self.pool_of(
                p,
            ).unwrap().asset_a != p && self.pool_of(p).unwrap().asset_b != p && self.pool_of(
                p,
            ).unwrap().account == STABLESWAP_ACCOUNT_SEED + p by {
                if p != pool_id {
                    assert(self.pool_of(p) == old(self).pool_of(p));
                }
            }
        }
        Ok(())
    }

    /// What `calculate_sell` returns for the pool's own pool type: a
    /// plain swap between the pair, or — when the share asset is bought
    /// — the shares a one-sided liquidity add mints. Selling the share
    /// asset has no closed form here and is not supported.
    pub open spec fn spec_calculate_sell(
        &self,
        ledger: &Ledger,
        pool_id: AssetId,
        asset_in: AssetId,
        asset_out: AssetId,
        amount_in: Balance,
    ) -> Result<Balance, ExecutorError> {
        match self.pool_of(pool_id) {
            None => Err(ExecutorError::Error(AmmError::PoolNotFound)),
            Some(pool) => {
                if asset_in == pool_id {
                    if !(asset_out == pool.asset_a || asset_out == pool.asset_b) {
                        Err(ExecutorError::Error(AmmError::AssetNotInPool))
                    } else {
                        spec_share_withdrawal(
                            pool,
                            ledger.free_of(pool.account, pool.asset_a),
                            ledger.free_of(pool.account, pool.asset_b),
                            asset_out,
                            amount_in,
                        )
                    }
                } else if asset_out == pool_id {
                    if !(asset_in == pool.asset_a || asset_in == pool.asset_b) {
                        Err(ExecutorError::Error(AmmError::AssetNotInPool))
                    } else {
                        let ra = ledger.free_of(pool.account, pool.asset_a);
                        let rb = ledger.free_of(pool.account, pool.asset_b);
                        let ua = if asset_in == pool.asset_a {
                            ra + amount_in
                        } else {
                            ra as int
                        };
                        let ub = if asset_in == pool.asset_b {
                            rb + amount_in
                        } else {
                            rb as int
                        };
                        if ua > Balance::MAX || ub > Balance::MAX {
                            Err(ExecutorError::Error(AmmError::Overflow))
                        } else {
                            match stable_add_liquidity_shares(
                                ra,
                                rb,
                                ua as Balance,
                                ub as Balance,
                                pool.amplification,
                                pool.share_issuance,
                            ) {
                                Some(shares) => Ok(shares),
                                None => Err(ExecutorError::Error(AmmError::Overflow)),
                            }
                        }
                    }
                } else if (asset_in == pool.asset_a && asset_out == pool.asset_b) || (asset_in
                    == pool.asset_b && asset_out == pool.asset_a) {
                    let reserve_in = ledger.free_of(pool.account, asset_in);
                    let reserve_out = ledger.free_of(pool.account, asset_out);
                    match stable_out_given_in(
                        reserve_in,
                        reserve_out,
                        amount_in,
                        pool.amplification,
                    ) {
                        Some(v) => Ok(v),
                        None => Err(ExecutorError::Error(AmmError::Overflow)),
                    }
                } else {
                    Err(ExecutorError::Error(AmmError::AssetNotInPool))
                }
            },
        }
    }

    /// What `calculate_buy` returns: the in-amount of a plain swap.
    /// Buying or selling the share asset for an exact amount has no
    /// closed form here and is not supported.
    pub open spec fn spec_calculate_buy(
        &self,
        ledger: &Ledger,
        pool_id: AssetId,
        asset_in: AssetId,
        asset_out: AssetId,
        amount_out: Balance,
    ) -> Result<Balance, ExecutorError> {
        match self.pool_of(pool_id) {
            None => Err(ExecutorError::Error(AmmError::PoolNotFound)),
            Some(pool) => {
                if asset_in == pool_id || asset_out == pool_id {
                    // buying exact amounts against the share asset has no
                    // closed form in the curve crate here
                    Err(ExecutorError::Error(AmmError::NotAllowed))
                } else if (asset_in == pool.asset_a && asset_out == pool.asset_b) || (asset_in
                    == pool.asset_b && asset_out == pool.asset_a) {
                    let reserve_in = ledger.free_of(pool.account, asset_in);
                    let reserve_out = ledger.free_of(pool.account, asset_out);
                    match stable_in_given_out(
                        reserve_in,
                        reserve_out,
                        amount_out,
                        pool.amplification,
                    ) {
                        Some(v) => Ok(v),
                        None => Err(ExecutorError::Error(AmmError::Overflow)),
                    }
                } else {
                    Err(ExecutorError::Error(AmmError::AssetNotInPool))
                }
            },
        }
    }

    /// `calculate_sell` of the trade-execution interface: pure, and
    /// `NotSupported` for every pool type but stableswap.
    pub fn calculate_sell(
        &self,
        pool_type: PoolType,
        asset_in: AssetId,
        asset_out: AssetId,
        amount_in: Balance,
        ledger: &Ledger,
    ) -> (r: Result<Balance, ExecutorError>)
        ensures
            match pool_type {
                PoolType::Stableswap(pool_id) => r == self.spec_calculate_sell(
                    ledger,
                    pool_id,
                    asset_in,
                    asset_out,
                    amount_in,
                ),
                _ => r == Err::<Balance, ExecutorError>(ExecutorError::NotSupported),
            },
    {
        let pool_id = match pool_type {
            PoolType::Stableswap(pid) => pid,
            _ => {
                return Err(ExecutorError::NotSupported);
            },
        };
        let pool = match self.pools.get(&pool_id) {
            Some(p) => *p,
            None => {
                return Err(ExecutorError::Error(AmmError::PoolNotFound));
            },
        };
        if asset_in == pool_id {
            if !(asset_out == pool.asset_a || asset_out == pool.asset_b) {
                return Err(ExecutorError::Error(AmmError::AssetNotInPool));
            }
            if amount_in > pool.share_issuance {
                return Err(ExecutorError::Error(AmmError::InsufficientLiquidity));
            }
            let ra = ledger.free_balance(pool.asset_a, pool.account);
            let rb = ledger.free_balance(pool.asset_b, pool.account);
            let withdrawn = match math_remove_liquidity_amounts(
                ra,
                rb,
                amount_in,
                pool.share_issuance,
            ) {
                Some(p) => p,
                None => {
                    return Err(ExecutorError::Error(AmmError::Overflow));
                },
            };
            let wa = withdrawn.amount_a;
            let wb = withdrawn.amount_b;
            if wa > ra || wb > rb {
                return Err(ExecutorError::Error(AmmError::Overflow));
            }
            let w_out = if asset_out == pool.asset_a {
                wa
            } else {
                wb
            };
            let w_other = if asset_out == pool.asset_a {
                wb
            } else {
                wa
            };
            let r_out2 = if asset_out == pool.asset_a {
                ra - wa
            } else {
                rb - wb
            };
            let r_other2 = if asset_out == pool.asset_a {
                rb - wb
            } else {
                ra - wa
            };
            let sw = match math_out_given_in(r_other2, r_out2, w_other, pool.amplification) {
                Some(v) => v,
                None => {
                    return Err(ExecutorError::Error(AmmError::Overflow));
                },
            };
            return match w_out.checked_add(sw) {
                Some(total) => Ok(total),
                None => Err(ExecutorError::Error(AmmError::Overflow)),
            };
        }
        if asset_out == pool_id {
            if !(asset_in == pool.asset_a || asset_in == pool.asset_b) {
                return Err(ExecutorError::Error(AmmError::AssetNotInPool));
            }
            let ra = ledger.free_balance(pool.asset_a, pool.account);
            let rb = ledger.free_balance(pool.asset_b, pool.account);
            let ua = if asset_in == pool.asset_a {
                match ra.checked_add(amount_in) {
                    Some(v) => v,
                    None => {
                        return Err(ExecutorError::Error(AmmError::Overflow));
                    },
                }
            } else {
                ra
            };
            let ub = if asset_in == pool.asset_b {
                match rb.checked_add(amount_in) {
                    Some(v) => v,
                    None => {
                        return Err(ExecutorError::Error(AmmError::Overflow));
                    },
                }
            } else {
                rb
            };
            return match math_add_liquidity_shares(
                ra,
                rb,
                ua,
                ub,
                pool.amplification,
                pool.share_issuance,
            ) {
                Some(shares) => Ok(shares),
                None => Err(ExecutorError::Error(AmmError::Overflow)),
            };
        }
        if (asset_in == pool.asset_a && asset_out == pool.asset_b) || (asset_in == pool.asset_b
            && asset_out == pool.asset_a) {
            let reserve_in = ledger.free_balance(asset_in, pool.account);
            let reserve_out = ledger.free_balance(asset_out, pool.account);
            match math_out_given_in(reserve_in, reserve_out, amount_in, pool.amplification) {
                Some(v) => Ok(v),
                None => Err(ExecutorError::Error(AmmError::Overflow)),
            }
        } else {
            Err(ExecutorError::Error(AmmError::AssetNotInPool))
        }
    }

    /// `calculate_buy` of the trade-execution interface.
    pub fn calculate_buy(
        &self,
        pool_type: PoolType,
        asset_in: AssetId,
        asset_out: AssetId,
        amount_out: Balance,
        ledger: &Ledger,
    ) -> (r: Result<Balance, ExecutorError>)
        ensures
            match pool_type {
                PoolType::Stableswap(pool_id) => r == self.spec_calculate_buy(
                    ledger,
                    pool_id,
                    asset_in,
                    asset_out,
                    amount_out,
                ),
                _ => r == Err::<Balance, ExecutorError>(ExecutorError::NotSupported),
            },
    {
        let pool_id = match pool_type {
            PoolType::Stableswap(pid) => pid,
            _ => {
                return Err(ExecutorError::NotSupported);
            },
        };
        let pool = match self.pools.get(&pool_id) {
            Some(p) => *p,
            None => {
                return Err(ExecutorError::Error(AmmError::PoolNotFound));
            },
        };
        if asset_in == pool_id || asset_out == pool_id {
            return Err(ExecutorError::Error(AmmError::NotAllowed));
        }
        if (asset_in == pool.asset_a && asset_out == pool.asset_b) || (asset_in == pool.asset_b
            && asset_out == pool.asset_a) {
            let reserve_in = ledger.free_balance(asset_in, pool.account);
            let reserve_out = ledger.free_balance(asset_out, pool.account);
            match math_in_given_out(reserve_in, reserve_out, amount_out, pool.amplification) {
                Some(v) => Ok(v),
                None => Err(ExecutorError::Error(AmmError::Overflow)),
            }
        } else {
            Err(ExecutorError::Error(AmmError::AssetNotInPool))
        }
    }

    /// `get_liquidity_depth` of the trade-execution interface: the
    /// derived pool account's free balance in `asset_a`. The account
    /// derivation needs no registered pool, so the query answers for any
    /// share asset.
    pub fn get_liquidity_depth(
        &self,
        pool_type: PoolType,
        asset_a: AssetId,
        ledger: &Ledger,
    ) -> (r: Result<Balance, ExecutorError>)
        ensures
            match pool_type {
                PoolType::Stableswap(pool_id) => r == Ok::<Balance, ExecutorError>(
                    ledger.free_of((STABLESWAP_ACCOUNT_SEED + pool_id) as AccountId, asset_a),
                ),
                _ => r == Err::<Balance, ExecutorError>(ExecutorError::NotSupported),
            },
    {
        let pool_id = match pool_type {
            PoolType::Stableswap(pid) => pid,
            _ => {
                return Err(ExecutorError::NotSupported);
            },
        };
        Ok(ledger.free_balance(asset_a, pool_account_of(pool_id)))
    }

    /// `calculate_spot_price` of the trade-execution interface: the
    /// price is derived from a dry run of a probe-sized sell — purely
    /// computed, so there is nothing to roll back — and returned as the
    /// in/out ratio of the probe.
    pub fn calculate_spot_price(
        &self,
        pool_type: PoolType,
        asset_a: AssetId,
        asset_b: AssetId,
        probe_amount: Balance,
        ledger: &Ledger,
    ) -> (r: Result<(Balance, Balance), ExecutorError>)
        ensures
            match pool_type {
                PoolType::Stableswap(pool_id) => match self.spec_calculate_sell(
                    ledger,
                    pool_id,
                    asset_a,
                    asset_b,
                    probe_amount,
                ) {
                    Ok(out) => if out > 0 {
                        r == Ok::<(Balance, Balance), ExecutorError>((probe_amount, out))
                    } else {
                        r == Err::<(Balance, Balance), ExecutorError>(
                            ExecutorError::Error(AmmError::ZeroPrice),
                        )
                    },
                    Err(e) => r == Err::<(Balance, Balance), ExecutorError>(e),
                },
                _ => r == Err::<(Balance, Balance), ExecutorError>(ExecutorError::NotSupported),
            },
    {
        if !matches!(pool_type, PoolType::Stableswap(_)) {
            return Err(ExecutorError::NotSupported);
        }
        match self.calculate_sell(pool_type, asset_a, asset_b, probe_amount, ledger) {
            Ok(out) => {
                if out > 0 {
                    Ok((probe_amount, out))
                } else {
                    Err(ExecutorError::Error(AmmError::ZeroPrice))
                }
            },
            Err(e) => Err(e),
        }
    }

    /// The exact outcome of `execute_sell` on the given state: the
    /// amount bought (or the shares minted), or the first failing check.
    /// Swaps consult the circuit breaker's trade-volume caps on both
    /// legs; a sell into the share asset is a liquidity add and consults
    /// the liquidity cap on the paid asset.
    pub open spec fn spec_execute_sell(
        &self,
        ledger: &Ledger,
        breaker: &CircuitBreaker,
        pool_id: AssetId,
        who: AccountId,
        asset_in: AssetId,
        asset_out: AssetId,
        amount_in: Balance,
        min_limit: Balance,
    ) -> Result<Balance, ExecutorError> {
        match self.spec_calculate_sell(ledger, pool_id, asset_in, asset_out, amount_in) {
            Err(e) => Err(e),
            Ok(out) => {
                let pool = self.pool_of(pool_id).unwrap();
                let reserve_in = ledger.free_of(pool.account, asset_in);
                if out < min_limit {
                    Err(ExecutorError::Error(AmmError::TradeLimitExceeded))
                } else if who == pool.account {
                    Err(ExecutorError::Error(AmmError::NotAllowed))
                } else if ledger.free_of(who, asset_in) < amount_in {
                    Err(ExecutorError::Error(AmmError::InsufficientBalance))
                } else if asset_in == pool_id {
                    // share sale: the shares are burnt and the pool pays
                    // the withdrawn value out of its reserve
                    let reserve_out = ledger.free_of(pool.account, asset_out);
                    if reserve_out < out {
                        Err(ExecutorError::Error(AmmError::InsufficientLiquidity))
                    } else if ledger.free_of(who, asset_out) + out > Balance::MAX {
                        Err(ExecutorError::Error(AmmError::Overflow))
                    } else if breaker.liquidity_consumed(asset_out) + out
                        > breaker.effective_liquidity_limit(asset_out, reserve_out) {
                        Err(ExecutorError::Error(AmmError::MaxLiquidityLimitPerBlockReached))
                    } else {
                        Ok(out)
                    }
                } else if reserve_in + amount_in > Balance::MAX {
                    Err(ExecutorError::Error(AmmError::Overflow))
                } else if asset_out == pool_id {
                    if ledger.free_of(who, asset_out) + out > Balance::MAX || pool.share_issuance
                        + out > Balance::MAX {
                        Err(ExecutorError::Error(AmmError::Overflow))
                    } else if breaker.liquidity_consumed(asset_in) + amount_in
                        > breaker.effective_liquidity_limit(asset_in, reserve_in) {
                        Err(ExecutorError::Error(AmmError::MaxLiquidityLimitPerBlockReached))
                    } else {
                        Ok(out)
                    }
                } else {
                    let reserve_out = ledger.free_of(pool.account, asset_out);
                    if reserve_out < out {
                        Err(ExecutorError::Error(AmmError::InsufficientLiquidity))
                    } else if ledger.free_of(who, asset_out) + out > Balance::MAX {
                        Err(ExecutorError::Error(AmmError::Overflow))
                    } else if breaker.trade_consumed(asset_in) + amount_in
                        > breaker.effective_trade_limit(asset_in, reserve_in) {
                        Err(ExecutorError::Error(AmmError::MaxTradeVolumePerBlockReached))
                    } else if breaker.trade_consumed(asset_out) + out
                        > breaker.effective_trade_limit(asset_out, reserve_out) {
                        Err(ExecutorError::Error(AmmError::MaxTradeVolumePerBlockReached))
                    } else {
                        Ok(out)
                    }
                }
            },
        }
    }

    /// `execute_sell` of the trade-execution interface: a plain swap
    /// moves the two legs between `who` and the pool account; a sell
    /// into the share asset adds liquidity and mints shares. The circuit
    /// breaker is consulted before any funds move; failure leaves no
    /// trace anywhere.
    pub fn execute_sell(
        &mut self,
        who: AccountId,
        pool_type: PoolType,
        asset_in: AssetId,
        asset_out: AssetId,
        amount_in: Balance,
        min_limit: Balance,
        ledger: &mut Ledger,
        breaker: &mut CircuitBreaker,
    ) -> (r: Result<(), ExecutorError>)
        requires
            old(self).wf(),
            old(breaker).wf(),
        ensures
            final(self).wf(),
            final(breaker).wf(),
            !(pool_type matches PoolType::Stableswap(_)) ==> r == Err::<(), ExecutorError>(
                ExecutorError::NotSupported,
            ),
            r is Err ==> *final(self) == *old(self) && final(ledger).agrees(old(ledger))
                && final(breaker).agrees(old(breaker)),
            match pool_type {
                PoolType::Stableswap(pool_id) => match old(self).spec_execute_sell(
                    old(ledger),
                    old(breaker),
                    pool_id,
                    who,
                    asset_in,
                    asset_out,
                    amount_in,
                    min_limit,
                ) {
                    Err(e) => r == Err::<(), ExecutorError>(e),
                    Ok(out) => {
                        let pool = old(self).pool_of(pool_id).unwrap();
                        &&& r == Ok::<(), ExecutorError>(())
                        &&& final(ledger).free_of(who, asset_in) == old(ledger).free_of(
                            who,
                            asset_in,
                        ) - amount_in
                        &&& (asset_in != pool_id
                            ==> final(ledger).free_of(pool.account, asset_in)
                            == old(ledger).free_of(pool.account, asset_in) + amount_in)
                        &&& (asset_in == pool_id
                            ==> final(ledger).free_of(who, asset_out)
                            == old(ledger).free_of(who, asset_out) + out
                            && final(ledger).free_of(pool.account, asset_out)
                            == old(ledger).free_of(pool.account, asset_out) - out
                            && final(ledger).free_of(pool.account, asset_in)
                            == old(ledger).free_of(pool.account, asset_in)
                            && final(self).pool_of(pool_id) == Some(StableswapPool {
                            share_issuance: (pool.share_issuance - amount_in) as Balance,
                            ..pool
                        })
                            && final(breaker).liquidity_consumed(asset_out)
                            == old(breaker).liquidity_consumed(asset_out) + out
                            && (forall|a: AssetId| #[trigger] final(breaker).trade_entry_of(a)
                            == old(breaker).trade_entry_of(a))
                            && (forall|a: AssetId|
                            a != asset_out ==> #[trigger] final(breaker).liquidity_entry_of(a)
                                == old(breaker).liquidity_entry_of(a)))
                        &&& (asset_in != pool_id && asset_out == pool_id
                            ==> final(ledger).free_of(who, asset_out)
                            == old(ledger).free_of(who, asset_out) + out
                            && final(self).pool_of(pool_id) == Some(StableswapPool {
                            share_issuance: (pool.share_issuance + out) as Balance,
                            ..pool
                        })
                            && final(breaker).liquidity_consumed(asset_in)
                            == old(breaker).liquidity_consumed(asset_in) + amount_in
                            && (forall|a: AssetId| #[trigger] final(breaker).trade_entry_of(a)
                            == old(breaker).trade_entry_of(a))
                            && (forall|a: AssetId|
                            a != asset_in ==> #[trigger] final(breaker).liquidity_entry_of(a)
                                == old(breaker).liquidity_entry_of(a)))
                        &&& (asset_in != pool_id && asset_out != pool_id
                            ==> final(ledger).free_of(who, asset_out)
                            == old(ledger).free_of(who, asset_out) + out
                            && final(ledger).free_of(pool.account, asset_out)
                            == old(ledger).free_of(pool.account, asset_out) - out
                            && *final(self) == *old(self)
                            && final(breaker).trade_consumed(asset_in)
                            == old(breaker).trade_consumed(asset_in) + amount_in
                            && final(breaker).trade_consumed(asset_out)
                            == old(breaker).trade_consumed(asset_out) + out
                            && (forall|a: AssetId|
                            a != asset_in && a != asset_out
                                ==> #[trigger] final(breaker).trade_entry_of(a)
                                == old(breaker).trade_entry_of(a))
                            && (forall|a: AssetId| #[trigger] final(breaker).liquidity_entry_of(a)
                            == old(breaker).liquidity_entry_of(a)))
                        &&& forall|w: AccountId, a: AssetId|
                            !((w == who || w == pool.account) && (a == asset_in || a
                                == asset_out)) ==> #[trigger] final(ledger).entry_of(w, a)
                                == old(ledger).entry_of(w, a)
                        &&& forall|w: AccountId, a: AssetId|
                            #[trigger] final(ledger).reserved_of(w, a) == old(ledger).reserved_of(
                                w,
                                a,
                            )
                    },
                },
                _ => true,
            },
    {
        let pool_id = match pool_type {
            PoolType::Stableswap(pid) => pid,
            _ => {
                return Err(ExecutorError::NotSupported);
            },
        };
        let out = match self.calculate_sell(pool_type, asset_in, asset_out, amount_in, ledger) {
            Ok(v) => v,
            Err(e) => {
                return Err(e);
            },
        };
        if out < min_limit {
            return Err(ExecutorError::Error(AmmError::TradeLimitExceeded));
        }
        let pool = match self.pools.get(&pool_id) {
            Some(p) => *p,
            None => {
                proof {
                    assert(false);
                }
                return Err(ExecutorError::Error(AmmError::PoolNotFound));
            },
        };
        if who == pool.account {
            return Err(ExecutorError::Error(AmmError::NotAllowed));
        }
        if ledger.free_balance(asset_in, who) < amount_in {
            return Err(ExecutorError::Error(AmmError::InsufficientBalance));
        }
        if asset_in == pool_id {
            // share sale: burn the shares, pay the withdrawn value out
            let reserve_out = ledger.free_balance(asset_out, pool.account);
            if reserve_out < out {
                return Err(ExecutorError::Error(AmmError::InsufficientLiquidity));
            }
            if ledger.free_balance(asset_out, who) > Balance::MAX - out {
                return Err(ExecutorError::Error(AmmError::Overflow));
            }
            if let Err(e) = breaker.ensure_and_update_liquidity_limit(asset_out, out, reserve_out)
            {
                return Err(ExecutorError::Error(e));
            }
            match ledger.withdraw(asset_in, who, amount_in) {
                Ok(()) => (),
                Err(_) => {
                    proof {
                        assert(false);
                    }
                },
            }
            match ledger.transfer(asset_out, pool.account, who, out) {
                Ok(()) => (),
                Err(_) => {
                    proof {
                        assert(false);
                    }
                },
            }
            self.pools.insert(
                pool_id,
                StableswapPool { share_issuance: pool.share_issuance - amount_in, ..pool },
            );
            proof {
                assert forall|p: AssetId| #[trigger] self.pool_of(p) is Some implies self.pool_of(
                    p,
                ).unwrap().asset_a != self.pool_of(p).unwrap().asset_b && self.pool_of(
                    p,
                ).unwrap().asset_a != p && self.pool_of(p).unwrap().asset_b != p && self.pool_of(
                    p,
                ).unwrap().account == STABLESWAP_ACCOUNT_SEED + p by {
                    if p != pool_id {
                        assert(self.pool_of(p) == old(self).pool_of(p));
                    }
                }
            }
            return Ok(());
        }
        let reserve_in = ledger.free_balance(asset_in, pool.account);
        if reserve_in > Balance::MAX - amount_in {
            return Err(ExecutorError::Error(AmmError::Overflow));
        }
        if asset_out == pool_id {
            // one-sided liquidity add: pay in, mint shares
            if ledger.free_balance(asset_out, who) > Balance::MAX - out || pool.share_issuance
                > Balance::MAX - out {
                return Err(ExecutorError::Error(AmmError::Overflow));
            }
            if let Err(e) = breaker.ensure_and_update_liquidity_limit(
                asset_in,
                amount_in,
                reserve_in,
            ) {
                return Err(ExecutorError::Error(e));
            }
            match ledger.transfer(asset_in, who, pool.account, amount_in) {
                Ok(()) => (),
                Err(_) => {
                    proof {
                        assert(false);
                    }
                },
            }
            match ledger.deposit(asset_out, who, out) {
                Ok(()) => (),
                Err(_) => {
                    proof {
                        assert(false);
                    }
                },
            }
            self.pools.insert(
                pool_id,
                StableswapPool { share_issuance: pool.share_issuance + out, ..pool },
            );
            proof {
                assert forall|p: AssetId| #[trigger] self.pool_of(p) is Some implies self.pool_of(
                    p,
                ).unwrap().asset_a != self.pool_of(p).unwrap().asset_b && self.pool_of(
                    p,
                ).unwrap().asset_a != p && self.pool_of(p).unwrap().asset_b != p && self.pool_of(
                    p,
                ).unwrap().account == STABLESWAP_ACCOUNT_SEED + p by {
                    if p != pool_id {
                        assert(self.pool_of(p) == old(self).pool_of(p));
                    }
                }
            }
            Ok(())
        } else {
            let reserve_out = ledger.free_balance(asset_out, pool.account);
            if reserve_out < out {
                return Err(ExecutorError::Error(AmmError::InsufficientLiquidity));
            }
            if ledger.free_balance(asset_out, who) > Balance::MAX - out {
                return Err(ExecutorError::Error(AmmError::Overflow));
            }
            let saved = breaker.snapshot();
            if let Err(e) = breaker.ensure_and_update_trade_volume_limit(
                asset_in,
                amount_in,
                reserve_in,
            ) {
                return Err(ExecutorError::Error(e));
            }
            if let Err(e) = breaker.ensure_and_update_trade_volume_limit(
                asset_out,
                out,
                reserve_out,
            ) {
                *breaker = saved;
                return Err(ExecutorError::Error(e));
            }
            match ledger.transfer(asset_in, who, pool.account, amount_in) {
                Ok(()) => (),
                Err(_) => {
                    proof {
                        assert(false);
                    }
                },
            }
            match ledger.transfer(asset_out, pool.account, who, out) {
                Ok(()) => (),
                Err(_) => {
                    proof {
                        assert(false);
                    }
                },
            }
            Ok(())
        }
    }

    /// `execute_sell` restricted to the plain swap between the pool's
    /// pair, leaving the share issuance untouched; this is the form the
    /// route executor drives, since a routed hop never trades the share
    /// asset itself.
    pub fn execute_swap_sell(
        &self,
        who: AccountId,
        pool_id: AssetId,
        asset_in: AssetId,
        asset_out: AssetId,
        amount_in: Balance,
        min_limit: Balance,
        ledger: &mut Ledger,
        breaker: &mut CircuitBreaker,
    ) -> (r: Result<(), ExecutorError>)
        requires
            self.wf(),
            old(breaker).wf(),
        ensures
            final(breaker).wf(),
            r is Err ==> final(ledger).agrees(old(ledger)) && final(breaker).agrees(old(breaker)),
            asset_in == pool_id || asset_out == pool_id ==> r == Err::<(), ExecutorError>(
                ExecutorError::Error(AmmError::NotAllowed),
            ),
            !(asset_in == pool_id || asset_out == pool_id) ==> match self.spec_execute_sell(
                old(ledger),
                old(breaker),
                pool_id,
                who,
                asset_in,
                asset_out,
                amount_in,
                min_limit,
            ) {
                Err(e) => r == Err::<(), ExecutorError>(e),
                Ok(out) => {
                    let pool = self.pool_of(pool_id).unwrap();
                    &&& r == Ok::<(), ExecutorError>(())
                    &&& final(ledger).free_of(who, asset_in) == old(ledger).free_of(
                        who,
                        asset_in,
                    ) - amount_in
                    &&& final(ledger).free_of(who, asset_out) == old(ledger).free_of(
                        who,
                        asset_out,
                    ) + out
                    &&& final(ledger).free_of(pool.account, asset_in) == old(ledger).free_of(
                        pool.account,
                        asset_in,
                    ) + amount_in
                    &&& final(ledger).free_of(pool.account, asset_out) == old(ledger).free_of(
                        pool.account,
                        asset_out,
                    ) - out
                    &&& forall|w: AccountId, a: AssetId|
                        !((w == who || w == pool.account) && (a == asset_in || a == asset_out))
                            ==> #[trigger] final(ledger).entry_of(w, a) == old(ledger).entry_of(
                            w,
                            a,
                        )
                    &&& forall|w: AccountId, a: AssetId|
                        #[trigger] final(ledger).reserved_of(w, a) == old(ledger).reserved_of(
                            w,
                            a,
                        )
                },
            },
    {
        if asset_in == pool_id || asset_out == pool_id {
            return Err(ExecutorError::Error(AmmError::NotAllowed));
        }
        let out = match self.calculate_sell(
            PoolType::Stableswap(pool_id),
            asset_in,
            asset_out,
            amount_in,
            ledger,
        ) {
            Ok(v) => v,
            Err(e) => {
                return Err(e);
            },
        };
        if out < min_limit {
            return Err(ExecutorError::Error(AmmError::TradeLimitExceeded));
        }
        let pool = match self.pools.get(&pool_id) {
            Some(p) => *p,
            None => {
                proof {
                    assert(false);
                }
                return Err(ExecutorError::Error(AmmError::PoolNotFound));
            },
        };
        if who == pool.account {
            return Err(ExecutorError::Error(AmmError::NotAllowed));
        }
        if ledger.free_balance(asset_in, who) < amount_in {
            return Err(ExecutorError::Error(AmmError::InsufficientBalance));
        }
        let reserve_in = ledger.free_balance(asset_in, pool.account);
        if reserve_in > Balance::MAX - amount_in {
            return Err(ExecutorError::Error(AmmError::Overflow));
        }
        let reserve_out = ledger.free_balance(asset_out, pool.account);
        if reserve_out < out {
            return Err(ExecutorError::Error(AmmError::InsufficientLiquidity));
        }
        if ledger.free_balance(asset_out, who) > Balance::MAX - out {
            return Err(ExecutorError::Error(AmmError::Overflow));
        }
        let saved = breaker.snapshot();
        if let Err(e) = breaker.ensure_and_update_trade_volume_limit(asset_in, amount_in, reserve_in)
        {
            return Err(ExecutorError::Error(e));
        }
        if let Err(e) = breaker.ensure_and_update_trade_volume_limit(asset_out, out, reserve_out) {
            *breaker = saved;
            return Err(ExecutorError::Error(e));
        }
        match ledger.transfer(asset_in, who, pool.account, amount_in) {
            Ok(()) => (),
            Err(_) => {
                proof {
                    assert(false);
                }
            },
        }
        match ledger.transfer(asset_out, pool.account, who, out) {
            Ok(()) => (),
            Err(_) => {
                proof {
                    assert(false);
                }
            },
        }
        Ok(())
    }

    /// The exact outcome of `execute_buy` on the given state: the amount
    /// paid, or the first failing check. The circuit breaker's
    /// trade-volume caps are consulted on both legs.
    pub open spec fn spec_execute_buy(
        &self,
        ledger: &Ledger,
        breaker: &CircuitBreaker,
        pool_id: AssetId,
        who: AccountId,
        asset_in: AssetId,
        asset_out: AssetId,
        amount_out: Balance,
        max_limit: Balance,
    ) -> Result<Balance, ExecutorError> {
        match self.spec_calculate_buy(ledger, pool_id, asset_in, asset_out, amount_out) {
            Err(e) => Err(e),
            Ok(amount_in) => {
                let pool = self.pool_of(pool_id).unwrap();
                let reserve_in = ledger.free_of(pool.account, asset_in);
                let reserve_out = ledger.free_of(pool.account, asset_out);
                if amount_in > max_limit {
                    Err(ExecutorError::Error(AmmError::TradeLimitExceeded))
                } else if who == pool.account {
                    Err(ExecutorError::Error(AmmError::NotAllowed))
                } else if ledger.free_of(who, asset_in) < amount_in {
                    Err(ExecutorError::Error(AmmError::InsufficientBalance))
                } else if reserve_out < amount_out {
                    Err(ExecutorError::Error(AmmError::InsufficientLiquidity))
                } else if reserve_in + amount_in > Balance::MAX || ledger.free_of(who, asset_out)
                    + amount_out > Balance::MAX {
                    Err(ExecutorError::Error(AmmError::Overflow))
                } else if breaker.trade_consumed(asset_in) + amount_in
                    > breaker.effective_trade_limit(asset_in, reserve_in) {
                    Err(ExecutorError::Error(AmmError::MaxTradeVolumePerBlockReached))
                } else if breaker.trade_consumed(asset_out) + amount_out
                    > breaker.effective_trade_limit(asset_out, reserve_out) {
                    Err(ExecutorError::Error(AmmError::MaxTradeVolumePerBlockReached))
                } else {
                    Ok(amount_in)
                }
            },
        }
    }

    /// `execute_buy` of the trade-execution interface: a plain swap for
    /// an exact out-amount. The circuit breaker is consulted before any
    /// funds move; failure leaves no trace anywhere.
    pub fn execute_buy(
        &self,
        who: AccountId,
        pool_type: PoolType,
        asset_in: AssetId,
        asset_out: AssetId,
        amount_out: Balance,
        max_limit: Balance,
        ledger: &mut Ledger,
        breaker: &mut CircuitBreaker,
    ) -> (r: Result<(), ExecutorError>)
        requires
            self.wf(),
            old(breaker).wf(),
        ensures
            final(breaker).wf(),
            !(pool_type matches PoolType::Stableswap(_)) ==> r == Err::<(), ExecutorError>(
                ExecutorError::NotSupported,
            ),
            r is Err ==> final(ledger).agrees(old(ledger)) && final(breaker).agrees(old(breaker)),
            match pool_type {
                PoolType::Stableswap(pool_id) => match self.spec_execute_buy(
                    old(ledger),
                    old(breaker),
                    pool_id,
                    who,
                    asset_in,
                    asset_out,
                    amount_out,
                    max_limit,
                ) {
                    Err(e) => r == Err::<(), ExecutorError>(e),
                    Ok(amount_in) => {
                        let pool = self.pool_of(pool_id).unwrap();
                        &&& r == Ok::<(), ExecutorError>(())
                        &&& final(ledger).free_of(who, asset_in) == old(ledger).free_of(
                            who,
                            asset_in,
                        ) - amount_in
                        &&& final(ledger).free_of(who, asset_out) == old(ledger).free_of(
                            who,
                            asset_out,
                        ) + amount_out
                        &&& final(ledger).free_of(pool.account, asset_in) == old(ledger).free_of(
                            pool.account,
                            asset_in,
                        ) + amount_in
                        &&& final(ledger).free_of(pool.account, asset_out) == old(ledger).free_of(
                            pool.account,
                            asset_out,
                        ) - amount_out
                        &&& final(breaker).trade_consumed(asset_in) == old(breaker).trade_consumed(
                            asset_in,
                        ) + amount_in
                        &&& final(breaker).trade_consumed(asset_out) == old(
                            breaker,
                        ).trade_consumed(asset_out) + amount_out
                        &&& forall|a: AssetId|
                            a != asset_in && a != asset_out
                                ==> #[trigger] final(breaker).trade_entry_of(a)
                                == old(breaker).trade_entry_of(a)
                        &&& forall|a: AssetId|
                            #[trigger] final(breaker).liquidity_entry_of(a)
                                == old(breaker).liquidity_entry_of(a)
                        &&& forall|w: AccountId, a: AssetId|
                            !((w == who || w == pool.account) && (a == asset_in || a
                                == asset_out)) ==> #[trigger] final(ledger).entry_of(w, a)
                                == old(ledger).entry_of(w, a)
                        &&& forall|w: AccountId, a: AssetId|
                            #[trigger] final(ledger).reserved_of(w, a) == old(ledger).reserved_of(
                                w,
                                a,
                            )
                    },
                },
                _ => true,
            },
    {
        let pool_id = match pool_type {
            PoolType::Stableswap(pid) => pid,
            _ => {
                return Err(ExecutorError::NotSupported);
            },
        };
        let amount_in = match self.calculate_buy(pool_type, asset_in, asset_out, amount_out, ledger)
        {
            Ok(v) => v,
            Err(e) => {
                return Err(e);
            },
        };
        if amount_in > max_limit {
            return Err(ExecutorError::Error(AmmError::TradeLimitExceeded));
        }
        let pool = match self.pools.get(&pool_id) {
            Some(p) => *p,
            None => {
                proof {
                    assert(false);
                }
                return Err(ExecutorError::Error(AmmError::PoolNotFound));
            },
        };
        if who == pool.account {
            return Err(ExecutorError::Error(AmmError::NotAllowed));
        }
        if ledger.free_balance(asset_in, who) < amount_in {
            return Err(ExecutorError::Error(AmmError::InsufficientBalance));
        }
        let reserve_in = ledger.free_balance(asset_in, pool.account);
        let reserve_out = ledger.free_balance(asset_out, pool.account);
        if reserve_out < amount_out {
            return Err(ExecutorError::Error(AmmError::InsufficientLiquidity));
        }
        if reserve_in > Balance::MAX - amount_in || ledger.free_balance(asset_out, who)
            > Balance::MAX - amount_out {
            return Err(ExecutorError::Error(AmmError::Overflow));
        }
        let saved = breaker.snapshot();
        if let Err(e) = breaker.ensure_and_update_trade_volume_limit(asset_in, amount_in, reserve_in)
        {
            return Err(ExecutorError::Error(e));
        }
        if let Err(e) = breaker.ensure_and_update_trade_volume_limit(
            asset_out,
            amount_out,
            reserve_out,
        ) {
            *breaker = saved;
            return Err(ExecutorError::Error(e));
        }
        match ledger.transfer(asset_in, who, pool.account, amount_in) {
            Ok(()) => (),
            Err(_) => {
                proof {
                    assert(false);
                }
            },
        }
        match ledger.transfer(asset_out, pool.account, who, amount_out) {
            Ok(()) => (),
            Err(_) => {
                proof {
                    assert(false);
                }
            },
        }
        Ok(())
    }
}

} // verus!
