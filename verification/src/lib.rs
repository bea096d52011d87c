//! Verified trading core for distributional prediction markets.
//!
//! Users trade on a continuous outcome distribution through two liquidity
//! mechanisms: a best-of-book limit-order tracker and a constant-product
//! automated market maker with time-decaying effective liquidity. All
//! real-valued quantities — densities, probabilities, prices, reserves — are
//! held as fixed-point integers (see [`math::SCALE`]) rather than IEEE
//! doubles, so that every computation is deterministic across execution
//! environments, a requirement for the consensus-critical setting this core
//! is meant for.
//!
//! The surrounding runtime (account storage and addressing, signer
//! verification, clocks, event delivery) is an external collaborator: the
//! functions here take timestamps and principal keys as plain values and
//! return the event records they would emit.

use vstd::prelude::*;

pub mod amm;
pub mod events;
pub mod market;
pub mod math;
pub mod orderbook;
pub mod positions;
pub mod registry;

verus! {

/// Stable identity of a principal or record (an account key). Equality is the
/// only operation the core performs on it.
pub type AccountKey = u64;

/// Errors returned by the trading core. Every failing operation leaves all
/// records unchanged.
#[derive(Clone, Copy, PartialEq, Eq, Structural, Debug)]
pub enum ErrorCode {
    /// The invoking principal is not the stored authority or owner.
    Unauthorized,
    /// The caller declined an approval gate.
    NotApproved,
    /// The supplied strategy key does not match the stored record.
    StrategyKeyMismatch,
    /// The strategy record belongs to a different registry.
    RegistryMismatch,
    /// The operation was attempted outside the valid lifecycle window.
    /// Also covers insufficient liquidity; splitting that out is a known
    /// precision gap.
    MarketNotActive,
    /// A zero or otherwise invalid size or amount.
    InvalidAmount,
}

/// Which way a trade or order goes: `Buy` removes outcome tokens from the
/// pool (paying the quote asset), `Sell` adds them back.
#[derive(Clone, Copy, PartialEq, Eq, Structural, Debug)]
pub enum Side {
    Buy,
    Sell,
}

} // verus!
