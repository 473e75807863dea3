//! Financial primitives for a decentralized-exchange runtime: a
//! dollar-cost-averaging order scheduler, a route executor composing
//! multi-hop trades over heterogeneous pool types, a per-block circuit
//! breaker, and the trade-execution interface that the omnipool,
//! stableswap and constant-product pool implementations answer.
//!
//! Every state transition is an ordinary Rust function whose behaviour is
//! pinned down by `requires`/`ensures` contracts and verified with Verus.

pub mod account;
pub mod breaker;
pub mod dca;
pub mod laws;
pub mod ledger;
pub mod math;
pub mod multipayment;
pub mod omnipool;
pub mod router;
pub mod stableswap;
pub mod types;
pub mod weights;
pub mod xyk;
