//! The error taxonomy of the trading engine.
//!
//! Every failure is fatal to the call that raised it: the caller's pool state
//! is left exactly as it was, and the error is surfaced verbatim.

use vstd::prelude::*;

verus! {

/// Why a pool operation was rejected. Each operation's contract states
/// exactly which inputs produce which variant.
#[derive(Clone, Copy, Debug, PartialEq, Eq, Structural)]
pub enum AmmError {
    /// The outcome code was neither 0 (NO) nor 1 (YES).
    InvalidOutcome,
    /// The trade size or initial liquidity was zero, above the configured
    /// liquidity cap, or too large for the pool to represent.
    InvalidAmount,
    /// `create_pool` was called for a market that already has a pool.
    PoolAlreadyExists,
    /// A trade or query named a market with no pool on record.
    PoolNotFound,
    /// One or both reserves were zero before or after the trade.
    InsufficientLiquidity,
    /// The computed output fell below the caller's floor.
    SlippageExceeded,
    /// The post-trade reserve product fell below the pre-trade product.
    /// Defensive: the engine proves this cannot happen, and checks it anyway.
    InvariantViolation,
}

impl AmmError {
    /// A short human-readable description of the error.
    pub fn message(&self) -> (m: &'static str)
    {
        match self {
            AmmError::InvalidOutcome => "outcome must be 0 (NO) or 1 (YES)",
            AmmError::InvalidAmount => "amount must be greater than 0 and within bounds",
            AmmError::PoolAlreadyExists => "pool already exists",
            AmmError::PoolNotFound => "pool does not exist",
            AmmError::InsufficientLiquidity => "insufficient liquidity",
            AmmError::SlippageExceeded => "slippage exceeded",
            AmmError::InvariantViolation => "invariant violation",
        }
    }
}

} // verus!
