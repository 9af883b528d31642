//! Tests of the stateless pricing engine and the odds math on raw reserves.

use boxmeout::errors::AmmError;
use boxmeout::odds::compute_odds;
use boxmeout::pricing::{quote_and_apply_buy, quote_and_apply_sell};
use boxmeout::MAX_RESERVE;

#[test]
fn test_one_sided_pool_odds() {
    assert_eq!(compute_odds(1_000_000_000, 0), (10000, 0));
    assert_eq!(compute_odds(0, 1_000_000_000), (0, 10000));
}

#[test]
fn test_empty_pool_odds() {
    assert_eq!(compute_odds(0, 0), (5000, 5000));
}

#[test]
fn test_balanced_pool_odds() {
    assert_eq!(compute_odds(1_000_000_000, 1_000_000_000), (5000, 5000));
    assert_eq!(compute_odds(1, 1), (5000, 5000));
    assert_eq!(compute_odds(MAX_RESERVE, MAX_RESERVE), (5000, 5000));
}

#[test]
fn test_rounding_closure() {
    let (yes_odds, no_odds) = compute_odds(333_333_333, 666_666_667);
    assert_eq!(yes_odds + no_odds, 10000);
    assert!(yes_odds >= 6666 && yes_odds <= 6668);
    assert!(no_odds >= 3332 && no_odds <= 3334);
    assert_eq!((yes_odds, no_odds), (6667, 3333));
}

#[test]
fn test_skewed_pool_odds() {
    // A side's odds follow the other side's share of the total reserve.
    assert_eq!(compute_odds(400_000_000, 600_000_000), (6000, 4000));
    assert_eq!(compute_odds(700_000_000, 300_000_000), (3000, 7000));
    assert_eq!(compute_odds(50_000_000, 950_000_000), (9500, 500));
    assert_eq!(compute_odds(950_000_000, 50_000_000), (500, 9500));
}

#[test]
fn test_quote_buy_exact_fields() {
    let q = quote_and_apply_buy(500_000, 500_000, 20, 1, 10_000, 0).unwrap();
    assert_eq!(q.fee, 20);
    assert_eq!(q.shares_out, 9980 * 500_000 / (500_000 + 9980));
    assert_eq!(q.shares_out, 9784);
    assert_eq!(q.new_no, 509_980);
    assert_eq!(q.new_yes, 490_216);
    // The fee retention makes the product grow.
    assert!(q.new_yes * q.new_no >= 500_000u128 * 500_000);
}

#[test]
fn test_quote_buy_errors() {
    assert_eq!(
        quote_and_apply_buy(500_000, 500_000, 20, 3, 100, 0),
        Err(AmmError::InvalidOutcome)
    );
    assert_eq!(
        quote_and_apply_buy(500_000, 500_000, 20, 1, 0, 0),
        Err(AmmError::InvalidAmount)
    );
    assert_eq!(
        quote_and_apply_buy(0, 500_000, 20, 1, 100, 0),
        Err(AmmError::InsufficientLiquidity)
    );
    assert_eq!(
        quote_and_apply_buy(500_000, 0, 20, 1, 100, 0),
        Err(AmmError::InsufficientLiquidity)
    );
    // A buy that would push the paying reserve past the representable range
    // is rejected as an invalid amount.
    assert_eq!(
        quote_and_apply_buy(MAX_RESERVE, MAX_RESERVE, 0, 1, MAX_RESERVE, 0),
        Err(AmmError::InvalidAmount)
    );
}

#[test]
fn test_quote_sell_exact_fields() {
    let q = quote_and_apply_sell(500_000, 500_000, 20, 1, 10_000, 0).unwrap();
    // gross = 10000 * 500000 / 510000 = 9803; fee = 19; net = 9784.
    assert_eq!(q.fee, 19);
    assert_eq!(q.payout, 9784);
    assert_eq!(q.new_yes, 510_000);
    assert_eq!(q.new_no, 490_197);
    assert!(q.new_yes * q.new_no >= 500_000u128 * 500_000);
}

#[test]
fn test_quote_sell_errors() {
    assert_eq!(
        quote_and_apply_sell(500_000, 500_000, 20, 9, 100, 0),
        Err(AmmError::InvalidOutcome)
    );
    assert_eq!(
        quote_and_apply_sell(500_000, 500_000, 20, 0, 0, 0),
        Err(AmmError::InvalidAmount)
    );
    assert_eq!(
        quote_and_apply_sell(500_000, 0, 20, 0, 100, 0),
        Err(AmmError::InsufficientLiquidity)
    );
    assert_eq!(
        quote_and_apply_sell(500_000, 500_000, 20, 1, 100, 1000),
        Err(AmmError::SlippageExceeded)
    );
}

#[test]
fn test_zero_fee_buy_keeps_product() {
    // Even with no fee, truncating division still rounds in the pool's
    // favor, so the product cannot decrease.
    let q = quote_and_apply_buy(1_000, 333, 0, 1, 77, 0).unwrap();
    assert!(q.new_yes * q.new_no >= 1_000u128 * 333);
}

#[test]
fn test_full_fee_buy_yields_nothing() {
    // A 100% fee consumes the whole payment: zero shares out.
    let q = quote_and_apply_buy(500_000, 500_000, 10000, 1, 10_000, 0).unwrap();
    assert_eq!(q.fee, 10_000);
    assert_eq!(q.shares_out, 0);
    assert_eq!(q.new_yes, 500_000);
    assert_eq!(q.new_no, 500_000);
}

#[test]
fn test_error_messages() {
    assert_eq!(AmmError::PoolNotFound.message(), "pool does not exist");
    assert_eq!(AmmError::SlippageExceeded.message(), "slippage exceeded");
}
