//! End-to-end tests of the market maker: pool lifecycle, trading, odds and
//! state queries, and the error taxonomy.

use boxmeout::amm::AMM;
use boxmeout::errors::AmmError;
use boxmeout::store::MarketId;

const CAP: u128 = 1_000_000_000_000_000;

fn market(n: u128) -> MarketId {
    MarketId { hi: n, lo: n }
}

#[test]
fn test_create_pool_symmetry() {
    let mut amm = AMM::initialize(CAP);
    let id = market(1);
    assert_eq!(amm.create_pool(id, 1000, 0), Ok(()));

    let (yes, no, total, yes_odds, no_odds) = amm.get_pool_state(id);
    assert_eq!(yes, 500);
    assert_eq!(no, 500);
    assert_eq!(total, 1000);
    assert_eq!((yes_odds, no_odds), (5000, 5000));
    assert_eq!(amm.get_odds(id), (5000, 5000));
}

#[test]
fn test_create_pool_odd_liquidity_truncates() {
    let mut amm = AMM::initialize(CAP);
    let id = market(2);
    assert_eq!(amm.create_pool(id, 1001, 7), Ok(()));
    let (yes, no, total, _, _) = amm.get_pool_state(id);
    assert_eq!(yes, 500);
    assert_eq!(no, 500);
    assert_eq!(total, 1000);
}

#[test]
fn test_no_pool_defaults() {
    let amm = AMM::initialize(CAP);
    let id = market(99);
    assert_eq!(amm.get_odds(id), (5000, 5000));
    assert_eq!(amm.get_pool_state(id), (0, 0, 0, 5000, 5000));
}

#[test]
fn test_pool_already_exists() {
    let mut amm = AMM::initialize(CAP);
    let id = market(3);
    assert_eq!(amm.create_pool(id, 1000, 0), Ok(()));
    assert_eq!(amm.create_pool(id, 2000, 0), Err(AmmError::PoolAlreadyExists));
}

#[test]
fn test_create_pool_zero_liquidity_rejected() {
    let mut amm = AMM::initialize(CAP);
    assert_eq!(amm.create_pool(market(4), 0, 0), Err(AmmError::InvalidAmount));
}

#[test]
fn test_create_pool_above_cap_rejected() {
    let mut amm = AMM::initialize(1000);
    let id = market(5);
    assert_eq!(amm.create_pool(id, 1001, 0), Err(AmmError::InvalidAmount));
    assert_eq!(amm.get_pool_state(id), (0, 0, 0, 5000, 5000));
    assert_eq!(amm.create_pool(id, 1000, 0), Ok(()));
}

#[test]
fn test_end_to_end_buy() {
    let mut amm = AMM::initialize(CAP);
    let id = market(6);
    assert_eq!(amm.create_pool(id, 1_000_000, 0), Ok(()));

    // fee = 10000 * 20 / 10000 = 20; net = 9980;
    // shares = 9980 * 500000 / (500000 + 9980) = 9784.
    let shares = amm.buy_shares(id, 1, 10_000, 0).unwrap();
    assert_eq!(shares, 9784);

    let (yes, no, total, _, _) = amm.get_pool_state(id);
    assert_eq!(yes, 500_000 - 9784);
    assert_eq!(no, 500_000 + 9980);
    assert_eq!(total, yes + no);

    // A repeated buy demanding impossibly many shares fails and mutates
    // nothing.
    assert_eq!(
        amm.buy_shares(id, 1, 10_000, u128::MAX),
        Err(AmmError::SlippageExceeded)
    );
    let (yes2, no2, _, _, _) = amm.get_pool_state(id);
    assert_eq!((yes2, no2), (yes, no));
}

#[test]
fn test_buy_no_side() {
    let mut amm = AMM::initialize(CAP);
    let id = market(7);
    assert_eq!(amm.create_pool(id, 1_000_000, 0), Ok(()));

    // Buying NO mirrors buying YES: pays into the YES reserve.
    let shares = amm.buy_shares(id, 0, 10_000, 0).unwrap();
    assert_eq!(shares, 9784);
    let (yes, no, _, _, _) = amm.get_pool_state(id);
    assert_eq!(yes, 500_000 + 9980);
    assert_eq!(no, 500_000 - 9784);
}

#[test]
fn test_slippage_enforcement() {
    let mut amm = AMM::initialize(CAP);
    let id = market(8);
    assert_eq!(amm.create_pool(id, 1_000_000, 0), Ok(()));

    // Computed output is exactly 9784 shares for a 10000 buy.
    assert_eq!(
        amm.buy_shares(id, 1, 10_000, 9785),
        Err(AmmError::SlippageExceeded)
    );
    assert_eq!(amm.buy_shares(id, 1, 10_000, 9784), Ok(9784));
}

#[test]
fn test_sell_exact_payout() {
    let mut amm = AMM::initialize(CAP);
    let id = market(9);
    assert_eq!(amm.create_pool(id, 1_000_000, 0), Ok(()));

    // gross = 10000 * 500000 / (500000 + 10000) = 9803; fee = 19; net = 9784.
    let payout = amm.sell_shares(id, 1, 10_000, 0).unwrap();
    assert_eq!(payout, 9784);

    // The sold side's reserve grows by the shares; the other loses the
    // gross payout, so the fee stays in the pool.
    let (yes, no, _, _, _) = amm.get_pool_state(id);
    assert_eq!(yes, 510_000);
    assert_eq!(no, 500_000 - 9803);
}

#[test]
fn test_sell_slippage() {
    let mut amm = AMM::initialize(CAP);
    let id = market(10);
    assert_eq!(amm.create_pool(id, 1_000_000, 0), Ok(()));
    assert_eq!(
        amm.sell_shares(id, 0, 10_000, 9785),
        Err(AmmError::SlippageExceeded)
    );
    assert_eq!(amm.sell_shares(id, 0, 10_000, 9784), Ok(9784));
}

#[test]
fn test_invalid_outcome() {
    let mut amm = AMM::initialize(CAP);
    let id = market(11);
    assert_eq!(amm.create_pool(id, 1_000_000, 0), Ok(()));
    assert_eq!(amm.buy_shares(id, 2, 100, 0), Err(AmmError::InvalidOutcome));
    assert_eq!(amm.sell_shares(id, 7, 100, 0), Err(AmmError::InvalidOutcome));
}

#[test]
fn test_invalid_amount() {
    let mut amm = AMM::initialize(CAP);
    let id = market(12);
    assert_eq!(amm.create_pool(id, 1_000_000, 0), Ok(()));
    assert_eq!(amm.buy_shares(id, 1, 0, 0), Err(AmmError::InvalidAmount));
    assert_eq!(amm.sell_shares(id, 1, 0, 0), Err(AmmError::InvalidAmount));
    // Amounts past the representable reserve range are rejected, not wrapped.
    assert_eq!(amm.buy_shares(id, 1, u128::MAX, 0), Err(AmmError::InvalidAmount));
}

#[test]
fn test_pool_not_found() {
    let mut amm = AMM::initialize(CAP);
    let id = market(13);
    assert_eq!(amm.buy_shares(id, 1, 100, 0), Err(AmmError::PoolNotFound));
    assert_eq!(amm.sell_shares(id, 0, 100, 0), Err(AmmError::PoolNotFound));
}

#[test]
fn test_insufficient_liquidity() {
    let mut amm = AMM::initialize(CAP);
    let id = market(14);
    // One unit of liquidity floors to (0, 0): the pool exists but holds
    // nothing tradable.
    assert_eq!(amm.create_pool(id, 1, 0), Ok(()));
    assert_eq!(amm.get_pool_state(id), (0, 0, 0, 5000, 5000));
    assert_eq!(amm.buy_shares(id, 1, 100, 0), Err(AmmError::InsufficientLiquidity));
    assert_eq!(amm.sell_shares(id, 1, 100, 0), Err(AmmError::InsufficientLiquidity));
}

#[test]
fn test_product_monotone_over_trade_sequence() {
    let mut amm = AMM::initialize(CAP);
    let id = market(15);
    assert_eq!(amm.create_pool(id, 1_000_000, 0), Ok(()));

    let (mut yes, mut no, _, _, _) = amm.get_pool_state(id);
    let mut k = yes * no;
    let trades: [(bool, u32, u128); 6] = [
        (true, 1, 10_000),
        (true, 0, 25_000),
        (false, 1, 5_000),
        (true, 1, 1),
        (false, 0, 12_345),
        (true, 0, 99_999),
    ];
    for (is_buy, outcome, size) in trades {
        let r = if is_buy {
            amm.buy_shares(id, outcome, size, 0)
        } else {
            amm.sell_shares(id, outcome, size, 0)
        };
        assert!(r.is_ok());
        let (y2, n2, _, _, _) = amm.get_pool_state(id);
        let k2 = y2 * n2;
        assert!(k2 >= k, "product decreased: {} < {}", k2, k);
        yes = y2;
        no = n2;
        k = k2;
    }
    assert!(yes > 0 && no > 0);
}

#[test]
fn test_odds_follow_trades() {
    let mut amm = AMM::initialize(CAP);
    let id = market(16);
    assert_eq!(amm.create_pool(id, 1_000_000, 0), Ok(()));
    amm.buy_shares(id, 1, 10_000, 0).unwrap();
    // Reserves are now (490216, 509980): YES is favored.
    let (yes_odds, no_odds) = amm.get_odds(id);
    assert_eq!((yes_odds, no_odds), (5099, 4901));
    assert_eq!(yes_odds + no_odds, 10000);
}

#[test]
fn test_independent_markets() {
    let mut amm = AMM::initialize(CAP);
    let a = market(17);
    let b = market(18);
    assert_eq!(amm.create_pool(a, 1_000_000, 0), Ok(()));
    assert_eq!(amm.create_pool(b, 2_000_000, 0), Ok(()));
    amm.buy_shares(a, 1, 10_000, 0).unwrap();
    // Trading on one market leaves the other untouched.
    assert_eq!(amm.get_pool_state(b), (1_000_000, 1_000_000, 2_000_000, 5000, 5000));
}
