//! Tests of the pool store's map semantics: existence is distinct from zero
//! reserves, absent keys read as zero, and writes create or overwrite.

use boxmeout::store::{MarketId, Pool, PoolStore};

fn sample_pool(seed: u128) -> Pool {
    Pool {
        yes_reserve: seed,
        no_reserve: seed * 2,
        total_liquidity: seed * 3,
        created_at: 42,
    }
}

#[test]
fn test_store_absent_reads_zeroed() {
    let store = PoolStore::new();
    let id = MarketId { hi: 1, lo: 2 };
    assert!(!store.has(id));
    let p = store.read(id);
    assert_eq!(p.yes_reserve, 0);
    assert_eq!(p.no_reserve, 0);
    assert_eq!(p.total_liquidity, 0);
    assert_eq!(p.created_at, 0);
}

#[test]
fn test_store_write_read_roundtrip() {
    let mut store = PoolStore::new();
    let id = MarketId { hi: 3, lo: 4 };
    let p = sample_pool(100);
    store.write(id, p);
    assert!(store.has(id));
    assert_eq!(store.read(id), p);
}

#[test]
fn test_store_overwrite_takes_latest() {
    let mut store = PoolStore::new();
    let id = MarketId { hi: 5, lo: 6 };
    store.write(id, sample_pool(1));
    store.write(id, sample_pool(2));
    assert_eq!(store.read(id), sample_pool(2));
}

#[test]
fn test_store_zero_record_still_exists() {
    // A written all-zero record is a different state from an absent one.
    let mut store = PoolStore::new();
    let id = MarketId { hi: 7, lo: 8 };
    store.write(id, Pool { yes_reserve: 0, no_reserve: 0, total_liquidity: 0, created_at: 0 });
    assert!(store.has(id));
}

#[test]
fn test_store_keys_independent() {
    let mut store = PoolStore::new();
    let a = MarketId { hi: 9, lo: 0 };
    let b = MarketId { hi: 0, lo: 9 };
    store.write(a, sample_pool(10));
    store.write(b, sample_pool(20));
    assert_eq!(store.read(a), sample_pool(10));
    assert_eq!(store.read(b), sample_pool(20));
    let c = MarketId { hi: 9, lo: 9 };
    assert!(!store.has(c));
}
