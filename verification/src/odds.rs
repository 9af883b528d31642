//! Implied odds derived from a pool's reserves.
//!
//! Odds are basis points out of 10000. A side's odds are proportional to the
//! *other* side's reserve: the more a side's own reserve holds, the cheaper
//! its shares are, so the less the market currently favors it. Truncation
//! can leave the raw pair one short of 10000; the remainder is credited to
//! the currently larger side so the pair always sums to exactly 10000.

use vstd::prelude::*;

verus! {

use vstd::arithmetic::div_mod::{
    lemma_fundamental_div_mod, lemma_mod_bound, lemma_div_pos_is_pos, lemma_div_is_ordered,
    lemma_div_multiples_vanish,
};
use vstd::arithmetic::mul::{
    lemma_mul_inequality, lemma_mul_strict_inequality, lemma_mul_is_commutative,
    lemma_mul_is_distributive_add, lemma_mul_is_distributive_add_other_way,
    lemma_mul_is_distributive_sub, lemma_mul_upper_bound,
};
use crate::MAX_RESERVE;

/// The odds pair `(yes_odds, no_odds)` implied by the given reserves.
///
/// An empty pool is priced 50/50; a one-sided pool is priced fully toward
/// the side whose reserve is empty (its shares are infinitely scarce).
pub open spec fn spec_odds(yes_reserve: u128, no_reserve: u128) -> (u32, u32) {
    if yes_reserve == 0 && no_reserve == 0 {
        (5000u32, 5000u32)
    } else if yes_reserve == 0 {
        (0u32, 10000u32)
    } else if no_reserve == 0 {
        (10000u32, 0u32)
    } else {
        let t: int = yes_reserve + no_reserve;
        let y: int = no_reserve * 10000 / t;
        let n: int = yes_reserve * 10000 / t;
        if y + n == 10000 {
            (y as u32, n as u32)
        } else if y >= n {
            ((y + (10000 - (y + n))) as u32, n as u32)
        } else {
            (y as u32, (n + (10000 - (y + n))) as u32)
        }
    }
}

/// Each raw odds value lies in `[0, 10000]`, and because the two numerators
/// sum to exactly `10000 * total`, truncation loses at most one unit from
/// the pair: the raw pair sums to 9999 or 10000.
proof fn lemma_raw_odds(yes: int, no: int)
    requires
        1 <= yes,
        1 <= no,
    ensures
        0 <= no * 10000 / (yes + no) <= 10000,
        0 <= yes * 10000 / (yes + no) <= 10000,
        9999 <= no * 10000 / (yes + no) + yes * 10000 / (yes + no) <= 10000,
{
    let t = yes + no;
    let y = no * 10000 / t;
    let n = yes * 10000 / t;
    lemma_div_pos_is_pos(no * 10000, t);
    lemma_div_pos_is_pos(yes * 10000, t);
    lemma_mul_inequality(no, t, 10000);
    lemma_mul_inequality(yes, t, 10000);
    lemma_div_is_ordered(no * 10000, t * 10000, t);
    lemma_div_is_ordered(yes * 10000, t * 10000, t);
    lemma_div_multiples_vanish(10000, t);

    lemma_fundamental_div_mod(no * 10000, t);
    lemma_mod_bound(no * 10000, t);
    lemma_fundamental_div_mod(yes * 10000, t);
    lemma_mod_bound(yes * 10000, t);
    let r1 = (no * 10000) % t;
    let r2 = (yes * 10000) % t;
    // The numerators sum to t * 10000 exactly.
    lemma_mul_is_distributive_add_other_way(10000, no, yes);
    // So t * (10000 - (y + n)) == r1 + r2, which lies in [0, 2t).
    lemma_mul_is_distributive_add(t, y, n);
    lemma_mul_is_distributive_sub(t, 10000, y + n);
    let d = 10000 - (y + n);
    assert(t * d == r1 + r2);
    if d < 0 {
        lemma_mul_strict_inequality(d, 0, t);
        lemma_mul_is_commutative(d, t);
        assert(false);
    }
    if d >= 2 {
        lemma_mul_inequality(2, d, t);
        lemma_mul_is_commutative(d, t);
        assert(false);
    }
}

/// With equal nonzero reserves each raw odds value is exactly 5000.
proof fn lemma_raw_odds_balanced(v: int)
    requires
        1 <= v,
    ensures
        v * 10000 / (v + v) == 5000,
{
    assert(v * 10000 == (v + v) * 5000) by {
        lemma_mul_is_distributive_add_other_way(5000, v, v);
        lemma_mul_is_distributive_add(v, 5000, 5000);
    }
    lemma_div_multiples_vanish(5000, v + v);
}

/// Law: the odds pair always sums to exactly 10000, whatever the reserves —
/// the rounding remainder is folded back into the larger side.
pub proof fn lemma_odds_sum(yes_reserve: u128, no_reserve: u128)
    ensures
        spec_odds(yes_reserve, no_reserve).0 + spec_odds(yes_reserve, no_reserve).1 == 10000,
{
    if yes_reserve > 0 && no_reserve > 0 {
        lemma_raw_odds(yes_reserve as int, no_reserve as int);
    }
}

/// Law: a pool with equal reserves is priced exactly 50/50.
pub proof fn lemma_odds_balanced(reserve: u128)
    ensures
        spec_odds(reserve, reserve) == (5000u32, 5000u32),
{
    if reserve > 0 {
        lemma_raw_odds_balanced(reserve as int);
    }
}

/// Compute the implied odds pair for the given reserves.
pub fn compute_odds(yes_reserve: u128, no_reserve: u128) -> (r: (u32, u32))
    requires
        yes_reserve <= MAX_RESERVE,
        no_reserve <= MAX_RESERVE,
    ensures
        r == spec_odds(yes_reserve, no_reserve),
        r.0 + r.1 == 10000,
        yes_reserve == no_reserve ==> r == (5000u32, 5000u32),
{
    proof {
        lemma_odds_sum(yes_reserve, no_reserve);
        lemma_odds_balanced(yes_reserve);
    }
    if yes_reserve == 0 && no_reserve == 0 {
        return (5000, 5000);
    }
    if yes_reserve == 0 {
        return (0, 10000);
    }
    if no_reserve == 0 {
        return (10000, 0);
    }

    proof {
        lemma_mul_upper_bound(no_reserve as int, MAX_RESERVE as int, 10000, 10000);
        lemma_mul_upper_bound(yes_reserve as int, MAX_RESERVE as int, 10000, 10000);
        lemma_raw_odds(yes_reserve as int, no_reserve as int);
    }
    let total: u128 = yes_reserve + no_reserve;
    let yes_raw: u128 = no_reserve * 10000 / total;
    let no_raw: u128 = yes_reserve * 10000 / total;
    let yes_odds: u32 = yes_raw as u32;
    let no_odds: u32 = no_raw as u32;

    let total_odds: u32 = yes_odds + no_odds;
    if total_odds != 10000 {
        let adjustment: u32 = 10000 - total_odds;
        if yes_odds >= no_odds {
            (yes_odds + adjustment, no_odds)
        } else {
            (yes_odds, no_odds + adjustment)
        }
    } else {
        (yes_odds, no_odds)
    }
}

} // verus!
