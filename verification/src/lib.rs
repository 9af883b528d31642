//! A constant-product market maker (CPMM) for binary-outcome (YES/NO) share
//! pools, as used by on-chain prediction markets.
//!
//! The crate is split into the two components of the design: a [`store`]
//! holding per-market reserve records, and a stateless pricing engine
//! ([`pricing`]) that computes trade outputs, enforces the product invariant
//! and slippage floors, applies the trading fee, and derives implied odds.
//! [`amm`] composes the two behind the public trading interface.

use vstd::prelude::*;

pub mod errors;
pub mod pricing;
pub mod odds;
pub mod store;
pub mod amm;

verus! {

/// Largest value a single pool reserve (and a single trade size) may take.
///
/// Keeping every reserve and trade amount at or below `2^64 - 1` guarantees
/// that every product the engine forms (`reserve * reserve`,
/// `amount * reserve`) fits in a `u128`, so the engine's arithmetic is
/// proved free of overflow rather than trapped at run time.
pub const MAX_RESERVE: u128 = 0xffff_ffff_ffff_ffff;

} // verus!
