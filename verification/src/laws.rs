//! Laws that hold across the library's operations, stated once and
//! proved: budget conservation over a schedule's whole life, purity of
//! the calculation endpoints, and the circuit breaker's exact cap.

use vstd::prelude::*;

use crate::breaker::CircuitBreaker;
use crate::math::permill_of;
use crate::omnipool::Omnipool;
use crate::types::{lift_amm, AssetId, Balance, ExecutorError};

verus! {

/// Everything the steps of a run took out of a budget: consumed and
/// released amounts summed over the run.
pub open spec fn total_spent(steps: Seq<(Balance, Balance)>) -> int
    decreases steps.len(),
{
    if steps.len() == 0 {
        0
    } else {
        total_spent(steps.drop_last()) + steps.last().0 + steps.last().1
    }
}

/// Budget conservation over a schedule's whole life: when every
/// execution step turns a remaining budget into the next one by
/// consuming and releasing exactly its reported amounts — which is what
/// `Dca::execute_schedule` ensures of a funded schedule — then at every
/// point the remaining budget plus everything consumed and released so
/// far equals the initial budget: no value is created or destroyed.
pub proof fn lemma_budget_conservation(
    initial: Balance,
    remainders: Seq<Balance>,
    steps: Seq<(Balance, Balance)>,
)
    requires
        remainders.len() == steps.len() + 1,
        remainders[0] == initial,
        forall|k: int|
            0 <= k < steps.len() ==> remainders[k + 1] + (#[trigger] steps[k]).0 + steps[k].1
                == remainders[k],
    ensures
        remainders[steps.len() as int] + total_spent(steps) == initial,
    decreases steps.len(),
{
    if steps.len() > 0 {
        lemma_budget_conservation(initial, remainders.drop_last(), steps.drop_last());
    }
}

/// Purity of the calculation endpoints: a calculation's contract pins
/// its result to a function of the pool state and the inputs alone, so
/// two calculations with identical state and inputs return identical
/// outputs — there is no hidden state to read and none to write.
pub proof fn lemma_calculate_sell_idempotent(
    pool: &Omnipool,
    asset_in: AssetId,
    asset_out: AssetId,
    amount_in: Balance,
    first: Result<Balance, ExecutorError>,
    second: Result<Balance, ExecutorError>,
)
    requires
        first == lift_amm(pool.spec_calculate_sell(asset_in, asset_out, amount_in)),
        second == lift_amm(pool.spec_calculate_sell(asset_in, asset_out, amount_in)),
    ensures
        first == second,
{
}

/// The circuit breaker's cap is exact: with nothing consumed yet in the
/// block, a trade is over the cap precisely when it exceeds
/// `calculate_limit(reserve, fraction)` — so a trade of exactly the
/// limit passes and one unit more is rejected.
pub proof fn lemma_trade_volume_cap(
    breaker: &CircuitBreaker,
    asset: AssetId,
    amount: Balance,
    reserve: Balance,
)
    requires
        breaker.trade_entry_of(asset) is None,
    ensures
        (breaker.trade_consumed(asset) + amount > breaker.effective_trade_limit(asset, reserve))
            <==> amount > permill_of(reserve, breaker.spec_trade_fraction()),
{
}

} // verus!
