//! Fact records emitted by mutating operations.
//!
//! Every operation that changes a record returns one of these structures so
//! the surrounding runtime can deliver it to off-chain indexers. Delivery is
//! fire-and-forget: none of the core's own state depends on it.

use crate::AccountKey;
use crate::Side;
use vstd::prelude::*;

verus! {

/// A strategy invocation passed its gates and was recorded.
#[derive(Clone, Copy, PartialEq, Eq, Structural, Debug)]
pub struct StrategyExecutionRequested {
    pub user: AccountKey,
    pub strategy: u64,
    pub target_program: AccountKey,
    pub ts: i64,
}

/// A market record was created.
#[derive(Clone, Copy, PartialEq, Eq, Structural, Debug)]
pub struct MarketCreated {
    pub market: AccountKey,
    pub authority: AccountKey,
    pub slug: u64,
    pub outcome_min: i64,
    pub outcome_max: i64,
    pub unit: u64,
    pub ts: i64,
}

/// A market's pool, order book and vault records were created.
#[derive(Clone, Copy, PartialEq, Eq, Structural, Debug)]
pub struct MarketInfrastructureInitialized {
    pub market: AccountKey,
    pub ts: i64,
}

/// An AMM pool was initialised for a market.
#[derive(Clone, Copy, PartialEq, Eq, Structural, Debug)]
pub struct PmAmmInitialized {
    pub market: AccountKey,
    pub l0: u64,
    pub dynamic_on: bool,
    pub fee_bps: u16,
    pub expiry_ts: i64,
    pub ts: i64,
}

/// A limit order was accepted by the order book.
#[derive(Clone, Copy, PartialEq, Eq, Structural, Debug)]
pub struct OrderPlaced {
    pub order_id: u64,
    pub market: AccountKey,
    pub owner: AccountKey,
    pub side: Side,
    pub price_bps: u64,
    pub size: u64,
    pub ts: i64,
}

/// A trade settled, either through the router or the AMM.
#[derive(Clone, Copy, PartialEq, Eq, Structural, Debug)]
pub struct TradeExecuted {
    pub market: AccountKey,
    pub taker: AccountKey,
    pub side: Side,
    pub price_bps: u64,
    pub size: u64,
    pub ts: i64,
}

/// A cancellation request was recorded. The best-of-book quotes are not
/// recomputed on cancellation in this design.
#[derive(Clone, Copy, PartialEq, Eq, Structural, Debug)]
pub struct OrderCancelled {
    pub order_id: u64,
    pub ts: i64,
}

/// A market was resolved to an outcome value.
#[derive(Clone, Copy, PartialEq, Eq, Structural, Debug)]
pub struct MarketResolved {
    pub market: AccountKey,
    pub outcome_value: i64,
    pub ts: i64,
}

/// A payout claim was recorded.
#[derive(Clone, Copy, PartialEq, Eq, Structural, Debug)]
pub struct PayoutClaimed {
    pub owner: AccountKey,
    pub market: AccountKey,
    pub amount: u64,
    pub ts: i64,
}

/// A position was opened.
#[derive(Clone, Copy, PartialEq, Eq, Structural, Debug)]
pub struct PositionOpened {
    pub owner: AccountKey,
    pub market: AccountKey,
    pub size: u64,
    pub collateral_locked: u64,
    pub ts: i64,
}

/// A position's size or collateral was adjusted.
#[derive(Clone, Copy, PartialEq, Eq, Structural, Debug)]
pub struct PositionAdjusted {
    pub owner: AccountKey,
    pub market: AccountKey,
    pub delta_size: i64,
    pub delta_collateral: i64,
    pub ts: i64,
}

/// A position was closed and its final state reported.
#[derive(Clone, Copy, PartialEq, Eq, Structural, Debug)]
pub struct PositionClosed {
    pub owner: AccountKey,
    pub market: AccountKey,
    pub size: u64,
    pub collateral_locked: u64,
    pub realized_pnl: i64,
    pub ts: i64,
}

/// Liquidity was added to a market's aggregate pool.
#[derive(Clone, Copy, PartialEq, Eq, Structural, Debug)]
pub struct LiquidityAdded {
    pub market: AccountKey,
    pub provider: AccountKey,
    pub amount: u64,
    pub ts: i64,
}

/// Liquidity was removed from a market's aggregate pool.
#[derive(Clone, Copy, PartialEq, Eq, Structural, Debug)]
pub struct LiquidityRemoved {
    pub market: AccountKey,
    pub provider: AccountKey,
    pub amount: u64,
    pub ts: i64,
}

} // verus!
