//! Core data model: assets, balances, pool discriminants, trade hops,
//! orders and schedules, and the error and event vocabulary.

use vstd::prelude::*;

verus! {

pub type Balance = u128;
pub type AssetId = u32;
pub type AccountId = u64;
pub type BlockNumber = u64;
pub type ScheduleId = u32;

/// Discriminant for the closed set of pool implementations a trade hop
/// can run through. A stableswap pool is addressed by its share asset.
#[derive(Clone, Copy, Debug, PartialEq, Eq, Structural)]
pub enum PoolType {
    Omnipool,
    Stableswap(AssetId),
    Xyk,
    Lbp,
}

/// One hop of a route: which pool to trade in and the asset pair.
#[derive(Clone, Copy, Debug, PartialEq, Eq, Structural)]
pub struct Trade {
    pub pool: PoolType,
    pub asset_in: AssetId,
    pub asset_out: AssetId,
}

/// The largest number of hops a route may have.
pub const MAX_NUMBER_OF_TRADES: usize = 5;

/// A single trading intent: sell a fixed input or buy a fixed output,
/// bounded by a limit on the other side, over an optional explicit route.
#[derive(Clone, Debug, PartialEq, Eq)]
pub enum Order {
    Sell {
        asset_in: AssetId,
        asset_out: AssetId,
        amount_in: Balance,
        min_limit: Balance,
        route: Vec<Trade>,
    },
    Buy {
        asset_in: AssetId,
        asset_out: AssetId,
        amount_out: Balance,
        max_limit: Balance,
        route: Vec<Trade>,
    },
}

impl Order {
    pub open spec fn spec_asset_in(&self) -> AssetId {
        match self {
            Order::Sell { asset_in, .. } => *asset_in,
            Order::Buy { asset_in, .. } => *asset_in,
        }
    }

    pub open spec fn spec_asset_out(&self) -> AssetId {
        match self {
            Order::Sell { asset_out, .. } => *asset_out,
            Order::Buy { asset_out, .. } => *asset_out,
        }
    }

    pub open spec fn spec_route(&self) -> Seq<Trade> {
        match self {
            Order::Sell { route, .. } => route@,
            Order::Buy { route, .. } => route@,
        }
    }

    pub open spec fn is_sell(&self) -> bool {
        self is Sell
    }

    pub fn asset_in(&self) -> (r: AssetId)
        ensures
            r == self.spec_asset_in(),
    {
        match self {
            Order::Sell { asset_in, .. } => *asset_in,
            Order::Buy { asset_in, .. } => *asset_in,
        }
    }

    pub fn asset_out(&self) -> (r: AssetId)
        ensures
            r == self.spec_asset_out(),
    {
        match self {
            Order::Sell { asset_out, .. } => *asset_out,
            Order::Buy { asset_out, .. } => *asset_out,
        }
    }

    pub fn route(&self) -> (r: &Vec<Trade>)
        ensures
            r@ == self.spec_route(),
    {
        match self {
            Order::Sell { route, .. } => route,
            Order::Buy { route, .. } => route,
        }
    }
}

/// A persisted recurring trade intent: a budget (`total_amount`,
/// monotonically consumed by executions), an execution period in blocks,
/// an optional per-million slippage tolerance, and the order itself.
#[derive(Clone, Debug, PartialEq, Eq)]
pub struct Schedule {
    pub owner: AccountId,
    pub period: BlockNumber,
    pub total_amount: Balance,
    pub slippage: Option<u32>,
    pub order: Order,
}

/// Errors of the balance ledger.
#[derive(Clone, Copy, Debug, PartialEq, Eq, Structural)]
pub enum LedgerError {
    InsufficientBalance,
    Overflow,
}

/// Errors surfaced by a pool implementation when calculating or executing
/// a single trade.
#[derive(Clone, Copy, Debug, PartialEq, Eq, Structural)]
pub enum AmmError {
    PoolNotFound,
    AssetNotInPool,
    InsufficientLiquidity,
    InsufficientBalance,
    MinTradeAmountNotReached,
    TradeLimitExceeded,
    MaxTradeVolumePerBlockReached,
    MaxLiquidityLimitPerBlockReached,
    ZeroPrice,
    NotAllowed,
    Overflow,
}

/// An `AmmError` seen through the trade-execution interface.
pub open spec fn lift_amm<T>(r: Result<T, AmmError>) -> Result<T, ExecutorError> {
    match r {
        Ok(v) => Ok(v),
        Err(e) => Err(ExecutorError::Error(e)),
    }
}

/// Result wrapper of the trade-execution interface: a pool implementation
/// answers `NotSupported` for pool types it does not implement, so that
/// implementations can be chained.
#[derive(Clone, Copy, Debug, PartialEq, Eq, Structural)]
pub enum ExecutorError {
    NotSupported,
    Error(AmmError),
}

/// Errors of the route executor.
#[derive(Clone, Copy, Debug, PartialEq, Eq, Structural)]
pub enum RouterError {
    RouteNotFound,
    InvalidRoute,
    MaxTradesExceeded,
    PoolNotSupported,
    TradeLimitReached,
    RouteNotBetter,
    Trade(AmmError),
}

/// Errors of the schedule endpoints.
#[derive(Clone, Copy, Debug, PartialEq, Eq, Structural)]
pub enum DcaError {
    InvalidScheduleOrderData,
    InsufficientBudget,
    ScheduleNotFound,
    Forbidden,
    BlockNumberIsNotInFuture,
    NoFreeBlockFound,
    InsufficientBalance,
}

/// Observable history of the scheduler: every state transition of a
/// schedule is recorded so consumers can reconstruct its full life.
#[derive(Clone, Copy, Debug, PartialEq, Eq, Structural)]
pub enum DcaEvent {
    Scheduled { id: ScheduleId, who: AccountId },
    ExecutionPlanned { id: ScheduleId, who: AccountId, block: BlockNumber },
    ExecutionStarted { id: ScheduleId, block: BlockNumber },
    TradeExecuted { id: ScheduleId, who: AccountId },
    TradeFailed { id: ScheduleId, who: AccountId },
    Suspended { id: ScheduleId, who: AccountId },
    Terminated { id: ScheduleId, who: AccountId },
    Completed { id: ScheduleId, who: AccountId },
}

} // verus!
