//! The stateless pricing engine.
//!
//! Constant-product market-maker (CPMM) math over a two-sided reserve pool:
//! trade quoting, fee application, slippage floors, and the reserve-product
//! invariant. All functions here are pure: they map the reserves they are
//! given to trade outputs and updated reserves, and the pool store is left to
//! the caller.
//!
//! Throughout, amounts and reserves are kept at or below [`MAX_RESERVE`] so
//! that every product fits in a `u128`; trades that would exceed that bound
//! are rejected rather than wrapped.

use vstd::prelude::*;

verus! {

use vstd::arithmetic::div_mod::{
    lemma_fundamental_div_mod, lemma_mod_bound, lemma_div_pos_is_pos, lemma_div_is_ordered,
    lemma_div_multiples_vanish,
};
use vstd::arithmetic::mul::{
    lemma_mul_inequality, lemma_mul_strict_inequality, lemma_mul_is_commutative,
    lemma_mul_is_distributive_sub, lemma_mul_is_distributive_sub_other_way,
    lemma_mul_strict_inequality_converse, lemma_mul_upper_bound,
};
use crate::errors::AmmError;
use crate::MAX_RESERVE;

/// The trading fee retained from `amount` at a rate of `fee_bps` basis
/// points, rounded down.
pub open spec fn spec_fee(amount: int, fee_bps: int) -> int {
    amount * fee_bps / 10000
}

/// The CPMM swap output: paying `amount_in` against a pool holding
/// `reserve_in` on the paying side and `reserve_out` on the receiving side
/// yields this many units, rounded down (always in the pool's favor).
pub open spec fn spec_swap_out(amount_in: int, reserve_in: int, reserve_out: int) -> int {
    amount_in * reserve_out / (reserve_in + amount_in)
}

/// The fee is never negative and never exceeds the amount it is taken from.
pub proof fn lemma_fee_le(amount: int, fee_bps: int)
    requires
        0 <= amount,
        0 <= fee_bps <= 10000,
    ensures
        0 <= spec_fee(amount, fee_bps) <= amount,
{
    lemma_mul_inequality(fee_bps, 10000, amount);
    lemma_mul_is_commutative(amount, fee_bps);
    lemma_div_is_ordered(amount * fee_bps, 10000 * amount, 10000);
    lemma_div_multiples_vanish(amount, 10000);
    lemma_div_pos_is_pos(amount * fee_bps, 10000);
}

/// The heart of the invariant: a truncating-division CPMM swap never drains
/// the receiving reserve, and the product of the updated reserves is at
/// least the product of the old ones (the division rounds in the pool's
/// favor, so the fee-free swap alone cannot shrink the product).
pub proof fn lemma_swap_preserves_product(amount_in: int, reserve_in: int, reserve_out: int)
    requires
        0 <= amount_in,
        1 <= reserve_in,
        1 <= reserve_out,
    ensures
        0 <= spec_swap_out(amount_in, reserve_in, reserve_out) < reserve_out,
        (reserve_in + amount_in) * (reserve_out - spec_swap_out(amount_in, reserve_in, reserve_out))
            >= reserve_in * reserve_out,
{
    let d = reserve_in + amount_in;
    let p = amount_in * reserve_out;
    let s = p / d;
    lemma_div_pos_is_pos(p, d);
    lemma_fundamental_div_mod(p, d);
    lemma_mod_bound(p, d);
    // d * s <= p, from p == d * s + (p % d) and p % d >= 0.
    assert(d * s <= p);
    // s < reserve_out: otherwise d * s >= d * reserve_out > amount_in * reserve_out.
    lemma_mul_strict_inequality(amount_in, d, reserve_out);
    assert(d * s < d * reserve_out) by {
        lemma_mul_is_commutative(d, reserve_out);
    }
    lemma_mul_strict_inequality_converse(s, reserve_out, d);
    // d * (reserve_out - s) == d * reserve_out - d * s >= d * reserve_out - p
    //                       == (d - amount_in) * reserve_out == reserve_in * reserve_out.
    lemma_mul_is_distributive_sub(d, reserve_out, s);
    lemma_mul_is_distributive_sub_other_way(reserve_out, d, amount_in);
}

/// The outcome of a buy accepted by the engine: shares handed to the buyer,
/// the fee retained inside the pool, and the updated reserves.
#[derive(Clone, Copy, Debug, PartialEq, Eq, Structural)]
pub struct BuyApplied {
    pub shares_out: u128,
    pub fee: u128,
    pub new_yes: u128,
    pub new_no: u128,
}

/// The outcome of a sell accepted by the engine: the net payout handed to
/// the seller, the fee retained inside the pool, and the updated reserves.
#[derive(Clone, Copy, Debug, PartialEq, Eq, Structural)]
pub struct SellApplied {
    pub payout: u128,
    pub fee: u128,
    pub new_yes: u128,
    pub new_no: u128,
}

/// What a buy returns and how it moves the reserves, as a mathematical
/// function of the inputs. Buying YES pays into the NO reserve and draws
/// shares from the YES reserve; buying NO mirrors that.
pub open spec fn spec_quote_buy(
    yes_reserve: u128,
    no_reserve: u128,
    fee_bps: u32,
    outcome: u32,
    amount: u128,
    min_shares: u128,
) -> Result<BuyApplied, AmmError> {
    if outcome > 1 {
        Err(AmmError::InvalidOutcome)
    } else if amount == 0 {
        Err(AmmError::InvalidAmount)
    } else if yes_reserve == 0 || no_reserve == 0 {
        Err(AmmError::InsufficientLiquidity)
    } else if amount > MAX_RESERVE {
        Err(AmmError::InvalidAmount)
    } else {
        let fee: int = spec_fee(amount as int, fee_bps as int);
        let net: int = amount - fee;
        let reserve_in: int = if outcome == 1 { no_reserve as int } else { yes_reserve as int };
        let reserve_out: int = if outcome == 1 { yes_reserve as int } else { no_reserve as int };
        if reserve_in + net > MAX_RESERVE {
            Err(AmmError::InvalidAmount)
        } else {
            let shares: int = spec_swap_out(net, reserve_in, reserve_out);
            if shares < min_shares {
                Err(AmmError::SlippageExceeded)
            } else {
                let new_in: int = reserve_in + net;
                let new_out: int = reserve_out - shares;
                Ok(BuyApplied {
                    shares_out: shares as u128,
                    fee: fee as u128,
                    new_yes: if outcome == 1 { new_out as u128 } else { new_in as u128 },
                    new_no: if outcome == 1 { new_in as u128 } else { new_out as u128 },
                })
            }
        }
    }
}

/// What a sell returns and how it moves the reserves. Selling an outcome
/// credits the sold shares to that outcome's reserve and pays the seller out
/// of the other reserve; the fee is taken from the gross payout, but the
/// full gross payout leaves the paying reserve, so the fee stays in the pool
/// and the reserve product can only grow.
pub open spec fn spec_quote_sell(
    yes_reserve: u128,
    no_reserve: u128,
    fee_bps: u32,
    outcome: u32,
    shares: u128,
    min_payout: u128,
) -> Result<SellApplied, AmmError> {
    if outcome > 1 {
        Err(AmmError::InvalidOutcome)
    } else if shares == 0 {
        Err(AmmError::InvalidAmount)
    } else if yes_reserve == 0 || no_reserve == 0 {
        Err(AmmError::InsufficientLiquidity)
    } else if shares > MAX_RESERVE {
        Err(AmmError::InvalidAmount)
    } else {
        let reserve_in: int = if outcome == 1 { yes_reserve as int } else { no_reserve as int };
        let reserve_out: int = if outcome == 1 { no_reserve as int } else { yes_reserve as int };
        if reserve_in + shares > MAX_RESERVE {
            Err(AmmError::InvalidAmount)
        } else {
            let gross: int = spec_swap_out(shares as int, reserve_in, reserve_out);
            let fee: int = spec_fee(gross, fee_bps as int);
            let net: int = gross - fee;
            if net < min_payout {
                Err(AmmError::SlippageExceeded)
            } else {
                let new_in: int = reserve_in + shares;
                let new_out: int = reserve_out - gross;
                Ok(SellApplied {
                    payout: net as u128,
                    fee: fee as u128,
                    new_yes: if outcome == 1 { new_in as u128 } else { new_out as u128 },
                    new_no: if outcome == 1 { new_out as u128 } else { new_in as u128 },
                })
            }
        }
    }
}

/// Law: an accepted buy never decreases the reserve product, never drains a
/// reserve past `MAX_RESERVE` or to zero, and honors the slippage floor.
pub proof fn lemma_quote_buy_ok(
    yes_reserve: u128,
    no_reserve: u128,
    fee_bps: u32,
    outcome: u32,
    amount: u128,
    min_shares: u128,
)
    requires
        fee_bps <= 10000,
        yes_reserve <= MAX_RESERVE,
        no_reserve <= MAX_RESERVE,
    ensures
        (spec_quote_buy(yes_reserve, no_reserve, fee_bps, outcome, amount, min_shares)
            matches Ok(q) ==> {
            &&& q.new_yes * q.new_no >= yes_reserve * no_reserve
            &&& 0 < q.new_yes <= MAX_RESERVE
            &&& 0 < q.new_no <= MAX_RESERVE
            &&& q.shares_out >= min_shares
            &&& q.fee <= amount
        }),
{
    let r = spec_quote_buy(yes_reserve, no_reserve, fee_bps, outcome, amount, min_shares);
    if r is Ok {
        let fee: int = spec_fee(amount as int, fee_bps as int);
        lemma_fee_le(amount as int, fee_bps as int);
        let net: int = amount - fee;
        let reserve_in: int = if outcome == 1 { no_reserve as int } else { yes_reserve as int };
        let reserve_out: int = if outcome == 1 { yes_reserve as int } else { no_reserve as int };
        lemma_swap_preserves_product(net, reserve_in, reserve_out);
        lemma_mul_is_commutative(reserve_in + net, reserve_out - spec_swap_out(net, reserve_in, reserve_out));
        lemma_mul_is_commutative(reserve_in, reserve_out);
    }
}

/// Law: an accepted sell never decreases the reserve product, never drains a
/// reserve past `MAX_RESERVE` or to zero, and honors the payout floor.
pub proof fn lemma_quote_sell_ok(
    yes_reserve: u128,
    no_reserve: u128,
    fee_bps: u32,
    outcome: u32,
    shares: u128,
    min_payout: u128,
)
    requires
        fee_bps <= 10000,
        yes_reserve <= MAX_RESERVE,
        no_reserve <= MAX_RESERVE,
    ensures
        (spec_quote_sell(yes_reserve, no_reserve, fee_bps, outcome, shares, min_payout)
            matches Ok(q) ==> {
            &&& q.new_yes * q.new_no >= yes_reserve * no_reserve
            &&& 0 < q.new_yes <= MAX_RESERVE
            &&& 0 < q.new_no <= MAX_RESERVE
            &&& q.payout >= min_payout
        }),
{
    let r = spec_quote_sell(yes_reserve, no_reserve, fee_bps, outcome, shares, min_payout);
    if r is Ok {
        let reserve_in: int = if outcome == 1 { yes_reserve as int } else { no_reserve as int };
        let reserve_out: int = if outcome == 1 { no_reserve as int } else { yes_reserve as int };
        let gross: int = spec_swap_out(shares as int, reserve_in, reserve_out);
        lemma_swap_preserves_product(shares as int, reserve_in, reserve_out);
        lemma_fee_le(gross, fee_bps as int);
        lemma_mul_is_commutative(reserve_in + shares, reserve_out - gross);
        lemma_mul_is_commutative(reserve_in, reserve_out);
    }
}

/// Law: slippage enforcement. When the outcome code, trade size, liquidity,
/// and capacity checks all pass, a buy fails with `SlippageExceeded` exactly
/// when the computed output falls below the caller's floor, and otherwise
/// succeeds returning exactly the computed output.
pub proof fn lemma_buy_slippage(
    yes_reserve: u128,
    no_reserve: u128,
    fee_bps: u32,
    outcome: u32,
    amount: u128,
    min_shares: u128,
)
    requires
        outcome <= 1,
        0 < amount <= MAX_RESERVE,
        0 < yes_reserve <= MAX_RESERVE,
        0 < no_reserve <= MAX_RESERVE,
        fee_bps <= 10000,
        ({
            let net: int = amount - spec_fee(amount as int, fee_bps as int);
            let reserve_in: int = if outcome == 1 { no_reserve as int } else { yes_reserve as int };
            reserve_in + net <= MAX_RESERVE
        }),
    ensures
        ({
            let net: int = amount - spec_fee(amount as int, fee_bps as int);
            let reserve_in: int = if outcome == 1 { no_reserve as int } else { yes_reserve as int };
            let reserve_out: int = if outcome == 1 { yes_reserve as int } else { no_reserve as int };
            let shares: int = spec_swap_out(net, reserve_in, reserve_out);
            let r = spec_quote_buy(yes_reserve, no_reserve, fee_bps, outcome, amount, min_shares);
            &&& (shares < min_shares <==> r == Err::<BuyApplied, AmmError>(
                AmmError::SlippageExceeded,
            ))
            &&& (min_shares <= shares ==> (r matches Ok(q) && q.shares_out == shares))
        }),
{
    let net: int = amount - spec_fee(amount as int, fee_bps as int);
    let reserve_in: int = if outcome == 1 { no_reserve as int } else { yes_reserve as int };
    let reserve_out: int = if outcome == 1 { yes_reserve as int } else { no_reserve as int };
    lemma_fee_le(amount as int, fee_bps as int);
    lemma_swap_preserves_product(net, reserve_in, reserve_out);
}

/// The even split of a pool's initial liquidity into its two starting
/// reserves; an odd unit is dropped by the truncating division.
pub fn split_initial_liquidity(initial_liquidity: u128) -> (r: (u128, u128))
    ensures
        r.0 == initial_liquidity / 2,
        r.1 == initial_liquidity / 2,
{
    let half: u128 = initial_liquidity / 2;
    (half, half)
}

/// Quote a buy against the given reserves and, if every check passes, return
/// the trade output and the updated reserves.
///
/// Checks, in order: the outcome code, a zero trade size, pool liquidity, a
/// trade too large to represent, the size of the updated paying reserve, the
/// caller's slippage floor, and — defensively — the reserve-product
/// invariant, which the proof shows can never actually fail.
pub fn quote_and_apply_buy(
    yes_reserve: u128,
    no_reserve: u128,
    fee_bps: u32,
    outcome: u32,
    amount: u128,
    min_shares: u128,
) -> (r: Result<BuyApplied, AmmError>)
    requires
        fee_bps <= 10000,
        yes_reserve <= MAX_RESERVE,
        no_reserve <= MAX_RESERVE,
    ensures
        r == spec_quote_buy(yes_reserve, no_reserve, fee_bps, outcome, amount, min_shares),
        (r matches Ok(q) ==> {
            &&& q.new_yes * q.new_no >= yes_reserve * no_reserve
            &&& 0 < q.new_yes <= MAX_RESERVE
            &&& 0 < q.new_no <= MAX_RESERVE
            &&& q.shares_out >= min_shares
        }),
{
    proof {
        lemma_quote_buy_ok(yes_reserve, no_reserve, fee_bps, outcome, amount, min_shares);
    }
    if outcome > 1 {
        return Err(AmmError::InvalidOutcome);
    }
    if amount == 0 {
        return Err(AmmError::InvalidAmount);
    }
    if yes_reserve == 0 || no_reserve == 0 {
        return Err(AmmError::InsufficientLiquidity);
    }
    if amount > MAX_RESERVE {
        return Err(AmmError::InvalidAmount);
    }

    proof {
        lemma_mul_upper_bound(amount as int, MAX_RESERVE as int, fee_bps as int, 10000);
        lemma_fee_le(amount as int, fee_bps as int);
    }
    let fee: u128 = amount * (fee_bps as u128) / 10000;
    let net: u128 = amount - fee;

    let reserve_in: u128 = if outcome == 1 { no_reserve } else { yes_reserve };
    let reserve_out: u128 = if outcome == 1 { yes_reserve } else { no_reserve };
    if net > MAX_RESERVE - reserve_in {
        return Err(AmmError::InvalidAmount);
    }

    proof {
        lemma_mul_upper_bound(net as int, MAX_RESERVE as int, reserve_out as int, MAX_RESERVE as int);
        lemma_swap_preserves_product(net as int, reserve_in as int, reserve_out as int);
    }
    let shares_out: u128 = net * reserve_out / (reserve_in + net);
    if shares_out < min_shares {
        return Err(AmmError::SlippageExceeded);
    }

    // Defensive invariant check; the proof above shows the branch is dead.
    proof {
        lemma_mul_upper_bound(yes_reserve as int, MAX_RESERVE as int, no_reserve as int, MAX_RESERVE as int);
        lemma_mul_upper_bound(
            (reserve_in + net) as int, MAX_RESERVE as int,
            (reserve_out - shares_out) as int, MAX_RESERVE as int,
        );
        lemma_mul_is_commutative(reserve_in as int, reserve_out as int);
        lemma_mul_is_commutative((reserve_in + net) as int, (reserve_out - shares_out) as int);
    }
    let old_k: u128 = yes_reserve * no_reserve;
    let new_reserve_in: u128 = reserve_in + net;
    let new_reserve_out: u128 = reserve_out - shares_out;
    let new_k: u128 = new_reserve_in * new_reserve_out;
    if new_k < old_k {
        return Err(AmmError::InvariantViolation);
    }

    if outcome == 1 {
        Ok(BuyApplied { shares_out, fee, new_yes: new_reserve_out, new_no: new_reserve_in })
    } else {
        Ok(BuyApplied { shares_out, fee, new_yes: new_reserve_in, new_no: new_reserve_out })
    }
}

/// Quote a sell against the given reserves and, if every check passes,
/// return the net payout and the updated reserves.
///
/// The sold shares are credited to the sold side's reserve; the gross payout
/// (fee included) leaves the other reserve, so the fee is retained as pool
/// value. The trailing liquidity check is defensive: the proof shows a sell
/// can never empty a reserve.
pub fn quote_and_apply_sell(
    yes_reserve: u128,
    no_reserve: u128,
    fee_bps: u32,
    outcome: u32,
    shares: u128,
    min_payout: u128,
) -> (r: Result<SellApplied, AmmError>)
    requires
        fee_bps <= 10000,
        yes_reserve <= MAX_RESERVE,
        no_reserve <= MAX_RESERVE,
    ensures
        r == spec_quote_sell(yes_reserve, no_reserve, fee_bps, outcome, shares, min_payout),
        (r matches Ok(q) ==> {
            &&& q.new_yes * q.new_no >= yes_reserve * no_reserve
            &&& 0 < q.new_yes <= MAX_RESERVE
            &&& 0 < q.new_no <= MAX_RESERVE
            &&& q.payout >= min_payout
        }),
{
    proof {
        lemma_quote_sell_ok(yes_reserve, no_reserve, fee_bps, outcome, shares, min_payout);
    }
    if outcome > 1 {
        return Err(AmmError::InvalidOutcome);
    }
    if shares == 0 {
        return Err(AmmError::InvalidAmount);
    }
    if yes_reserve == 0 || no_reserve == 0 {
        return Err(AmmError::InsufficientLiquidity);
    }
    if shares > MAX_RESERVE {
        return Err(AmmError::InvalidAmount);
    }

    let reserve_in: u128 = if outcome == 1 { yes_reserve } else { no_reserve };
    let reserve_out: u128 = if outcome == 1 { no_reserve } else { yes_reserve };
    if shares > MAX_RESERVE - reserve_in {
        return Err(AmmError::InvalidAmount);
    }

    proof {
        lemma_mul_upper_bound(shares as int, MAX_RESERVE as int, reserve_out as int, MAX_RESERVE as int);
        lemma_swap_preserves_product(shares as int, reserve_in as int, reserve_out as int);
    }
    let gross: u128 = shares * reserve_out / (reserve_in + shares);

    proof {
        lemma_mul_upper_bound(gross as int, MAX_RESERVE as int, fee_bps as int, 10000);
        lemma_fee_le(gross as int, fee_bps as int);
    }
    let fee: u128 = gross * (fee_bps as u128) / 10000;
    let payout_net: u128 = gross - fee;
    if payout_net < min_payout {
        return Err(AmmError::SlippageExceeded);
    }

    let new_reserve_in: u128 = reserve_in + shares;
    let new_reserve_out: u128 = reserve_out - gross;
    let (new_yes, new_no): (u128, u128) = if outcome == 1 {
        (new_reserve_in, new_reserve_out)
    } else {
        (new_reserve_out, new_reserve_in)
    };

    // Defensive check; the proof above shows neither reserve can reach zero.
    if new_yes == 0 || new_no == 0 {
        return Err(AmmError::InsufficientLiquidity);
    }

    Ok(SellApplied { payout: payout_net, fee, new_yes, new_no })
}

} // verus!
