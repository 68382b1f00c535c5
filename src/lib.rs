//! A two-asset liquidity pool that exchanges a staked-token derivative for
//! its underlying token at a fixed oracle price, charges a reserve-dependent
//! fee, and tracks liquidity-provider shares.
pub mod arith;
pub mod model;
pub mod laws;
pub mod pool;

pub use model::SCALE;
pub use pool::{LpPool, PoolError};
