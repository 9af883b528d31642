//! The pool store: one reserve record per market.
//!
//! A pool's existence is a distinct state from zero reserves: `exists`
//! answers whether a record was ever written, while `read` hands absent keys
//! back as an all-zero record. The store does no validation of its own —
//! callers enforce the economic invariants — it only guarantees map
//! semantics: one record per market identifier.

use vstd::prelude::*;

verus! {

use crate::MAX_RESERVE;

/// Identifies a market: a fixed-size 256-bit opaque identifier, held as two
/// 128-bit halves so that it can be compared as plain values.
#[derive(Clone, Copy, Debug, PartialEq, Eq, Structural)]
pub struct MarketId {
    pub hi: u128,
    pub lo: u128,
}

/// A per-market pool record.
#[derive(Clone, Copy, Debug, PartialEq, Eq, Structural)]
pub struct Pool {
    /// Reserve backing YES shares.
    pub yes_reserve: u128,
    /// Reserve backing NO shares.
    pub no_reserve: u128,
    /// Sum of the two reserves as of the last write.
    pub total_liquidity: u128,
    /// Caller-supplied creation timestamp.
    pub created_at: u64,
}

impl Pool {
    /// The all-zero record that absent keys read as.
    pub open spec fn spec_zeroed() -> Pool {
        Pool { yes_reserve: 0, no_reserve: 0, total_liquidity: 0, created_at: 0 }
    }

    /// The all-zero record that absent keys read as.
    pub fn zeroed() -> (p: Pool)
        ensures
            p == Pool::spec_zeroed(),
    {
        Pool { yes_reserve: 0, no_reserve: 0, total_liquidity: 0, created_at: 0 }
    }

    /// A stored pool is well formed when each reserve stays within the
    /// engine's representable range and the recorded total is consistent.
    pub open spec fn wf(self) -> bool {
        &&& self.yes_reserve <= MAX_RESERVE
        &&& self.no_reserve <= MAX_RESERVE
        &&& self.total_liquidity == self.yes_reserve + self.no_reserve
    }

    /// The CPMM product of the two reserves.
    pub open spec fn product(self) -> int {
        self.yes_reserve * self.no_reserve
    }
}

/// One stored record.
#[derive(Clone, Copy)]
struct PoolEntry {
    market_id: MarketId,
    pool: Pool,
}

/// The records as a map, built from the back of the sequence so that a later
/// write for the same market shadows an earlier one.
spec fn entries_map(s: Seq<PoolEntry>) -> Map<MarketId, Pool>
    decreases s.len(),
{
    if s.len() == 0 {
        Map::empty()
    } else {
        entries_map(s.drop_last()).insert(s.last().market_id, s.last().pool)
    }
}

/// No market identifier occurs twice.
spec fn unique_keys(s: Seq<PoolEntry>) -> bool {
    forall|i: int, j: int| 0 <= i < j < s.len() ==> s[i].market_id != s[j].market_id
}

/// With unique keys, the entry at any index is the map's value for its key.
proof fn lemma_entries_map_index(s: Seq<PoolEntry>, i: int)
    requires
        unique_keys(s),
        0 <= i < s.len(),
    ensures
        entries_map(s).contains_key(s[i].market_id),
        entries_map(s)[s[i].market_id] == s[i].pool,
    decreases s.len(),
{
    if i < s.len() - 1 {
        lemma_entries_map_index(s.drop_last(), i);
    }
}

/// A key held by no entry is not in the map.
proof fn lemma_entries_map_absent(s: Seq<PoolEntry>, market_id: MarketId)
    requires
        forall|j: int| 0 <= j < s.len() ==> s[j].market_id != market_id,
    ensures
        !entries_map(s).contains_key(market_id),
    decreases s.len(),
{
    if s.len() > 0 {
        lemma_entries_map_absent(s.drop_last(), market_id);
    }
}

/// Overwriting the entry at an index (keeping its key) is a map insert.
proof fn lemma_entries_map_update(s: Seq<PoolEntry>, i: int, e: PoolEntry)
    requires
        unique_keys(s),
        0 <= i < s.len(),
        e.market_id == s[i].market_id,
    ensures
        entries_map(s.update(i, e)) == entries_map(s).insert(e.market_id, e.pool),
    decreases s.len(),
{
    let su = s.update(i, e);
    if i == s.len() - 1 {
        assert(su.drop_last() =~= s.drop_last());
        assert(entries_map(su) =~= entries_map(s).insert(e.market_id, e.pool));
    } else {
        assert(su.drop_last() =~= s.drop_last().update(i, e));
        lemma_entries_map_update(s.drop_last(), i, e);
        // The final insert for the last entry commutes with the insert for
        // index i because their keys differ.
        assert(entries_map(su) =~= entries_map(s).insert(e.market_id, e.pool));
    }
}

/// Appending an entry is a map insert.
proof fn lemma_entries_map_push(s: Seq<PoolEntry>, e: PoolEntry)
    ensures
        entries_map(s.push(e)) == entries_map(s).insert(e.market_id, e.pool),
{
    assert(s.push(e).drop_last() =~= s);
}

/// The pool store. Its abstract value (`self@`) is the map from market
/// identifiers to their records.
pub struct PoolStore {
    entries: Vec<PoolEntry>,
}

impl View for PoolStore {
    type V = Map<MarketId, Pool>;

    closed spec fn view(&self) -> Map<MarketId, Pool> {
        entries_map(self.entries@)
    }
}

impl PoolStore {
    #[verifier::type_invariant]
    spec fn inv(self) -> bool {
        unique_keys(self.entries@)
    }

    /// An empty store.
    pub fn new() -> (s: Self)
        ensures
            s@ == Map::<MarketId, Pool>::empty(),
    {
        PoolStore { entries: Vec::new() }
    }

    /// The index of the record for `market_id`, if one is stored.
    fn find_index(&self, market_id: MarketId) -> (r: Option<usize>)
        ensures
            (match r {
                Some(i) => i < self.entries@.len() && self.entries@[i as int].market_id
                    == market_id && self@.contains_key(market_id) && self@[market_id]
                    == self.entries@[i as int].pool,
                None => !self@.contains_key(market_id) && forall|j: int|
                    0 <= j < self.entries@.len() ==> self.entries@[j].market_id != market_id,
            }),
    {
        proof {
            use_type_invariant(&*self);
        }
        let n: usize = self.entries.len();
        let mut i: usize = 0;
        while i < n
            invariant
                i <= n,
                n == self.entries@.len(),
                unique_keys(self.entries@),
                entries_map(self.entries@) == self@,
                forall|j: int| 0 <= j < i ==> self.entries@[j].market_id != market_id,
            decreases n - i,
        {
            if self.entries[i].market_id == market_id {
                proof {
                    lemma_entries_map_index(self.entries@, i as int);
                }
                return Some(i);
            }
            i += 1;
        }
        proof {
            lemma_entries_map_absent(self.entries@, market_id);
        }
        None
    }

    /// Whether a record was ever written for `market_id`.
    pub fn has(&self, market_id: MarketId) -> (r: bool)
        ensures
            r == self@.contains_key(market_id),
    {
        self.find_index(market_id).is_some()
    }

    /// The record for `market_id`; absent keys read as the all-zero record.
    pub fn read(&self, market_id: MarketId) -> (p: Pool)
        ensures
            p == (if self@.contains_key(market_id) {
                self@[market_id]
            } else {
                Pool::spec_zeroed()
            }),
    {
        match self.find_index(market_id) {
            Some(i) => self.entries[i].pool,
            None => Pool::zeroed(),
        }
    }

    /// Store `pool` as the record for `market_id`, creating or overwriting.
    pub fn write(&mut self, market_id: MarketId, pool: Pool)
        ensures
            final(self)@ == old(self)@.insert(market_id, pool),
    {
        proof {
            use_type_invariant(&*self);
        }
        let entry = PoolEntry { market_id, pool };
        let found = self.find_index(market_id);
        let mut entries: Vec<PoolEntry> = Vec::new();
        core::mem::swap(&mut entries, &mut self.entries);
        let ghost s0 = entries@;
        match found {
            Some(i) => {
                proof {
                    lemma_entries_map_update(entries@, i as int, entry);
                }
                entries[i] = entry;
                proof {
                    assert(forall|a: int|
                        0 <= a < entries@.len() ==> entries@[a].market_id == s0[a].market_id);
                    assert(unique_keys(entries@));
                }
            }
            None => {
                proof {
                    lemma_entries_map_push(entries@, entry);
                }
                entries.push(entry);
                proof {
                    assert forall|a: int, b: int|
                        0 <= a < b < entries@.len() implies entries@[a].market_id
                        != entries@[b].market_id by {
                        if b < s0.len() {
                            assert(s0[a].market_id != s0[b].market_id);
                        } else {
                            assert(s0[a].market_id != market_id);
                        }
                    }
                    assert(unique_keys(entries@));
                }
            }
        }
        self.entries = entries;
    }
}

} // verus!
