//! A time-aware value cache with access accounting, as the slowest tier of
//! the layered caching the server keeps around expensive lookups. The clock
//! enters every operation as an explicit reading.

use vstd::prelude::*;

use crate::strutil::str_eq;

verus! {

/// A cached value and its accounting.
#[derive(Debug)]
pub struct CacheEntry<T> {
    /// The cached value.
    pub value: T,
    /// Clock reading at which the entry was stored.
    pub created_at: u64,
    /// Clock reading of the last read.
    pub last_accessed: u64,
    /// How often the entry was read.
    pub access_count: u64,
    /// How long the entry lives, in milliseconds.
    pub ttl_ms: u64,
}

impl<T> CacheEntry<T> {
    /// A fresh entry stored at `now` with the given lifetime.
    pub fn new(value: T, ttl_ms: u64, now: u64) -> (r: Self)
        ensures
            r.value == value,
            r.created_at == now,
            r.last_accessed == now,
            r.access_count == 0,
            r.ttl_ms == ttl_ms,
    {
        CacheEntry { value, created_at: now, last_accessed: now, access_count: 0, ttl_ms }
    }

    /// Whether the entry's lifetime has passed at `now`.
    pub fn is_expired(&self, now: u64) -> (r: bool)
        ensures
            r == spec_entry_expired(self.created_at, self.ttl_ms, now),
    {
        now.saturating_sub(self.created_at) > self.ttl_ms
    }

    /// Notes a read at `now`.
    pub fn mark_accessed(&mut self, now: u64)
        ensures
            final(self).last_accessed == now,
            final(self).access_count == if old(self).access_count < u64::MAX {
                old(self).access_count + 1
            } else {
                u64::MAX as int
            },
            final(self).value == old(self).value,
            final(self).created_at == old(self).created_at,
            final(self).ttl_ms == old(self).ttl_ms,
    {
        self.last_accessed = now;
        self.access_count = self.access_count.saturating_add(1);
    }
}

/// An entry is expired once it is older than its lifetime.
pub open spec fn spec_entry_expired(created_at: u64, ttl_ms: u64, now: u64) -> bool {
    now > created_at + ttl_ms
}

/// Counters of the slow tier.
#[derive(Debug, Clone, Copy)]
pub struct L3CacheStats {
    /// Entries currently held.
    pub size: usize,
    /// Entries the tier may hold.
    pub max_size: usize,
}

/// Aggregate counters over the cache tiers.
#[derive(Debug, Clone, Copy)]
pub struct CacheStats {
    /// Reads answered by the first tier.
    pub l1_hits: u64,
    /// Reads answered by the second tier.
    pub l2_hits: u64,
    /// Reads answered by the slow tier.
    pub l3_hits: u64,
    /// Reads no tier answered.
    pub total_misses: u64,
    /// Reads asked in all.
    pub total_requests: u64,
    /// Entries dropped.
    pub evictions: u64,
    /// Entries promoted to a faster tier.
    pub promotions: u64,
}

impl Default for CacheStats {
    /// All counters start at zero.
    fn default() -> (r: Self)
        ensures
            r.l1_hits == 0 && r.l2_hits == 0 && r.l3_hits == 0 && r.total_misses == 0
                && r.total_requests == 0 && r.evictions == 0 && r.promotions == 0,
    {
        CacheStats {
            l1_hits: 0,
            l2_hits: 0,
            l3_hits: 0,
            total_misses: 0,
            total_requests: 0,
            evictions: 0,
            promotions: 0,
        }
    }
}

/// The tier a value is stored into.
#[derive(Debug, Clone, Copy, PartialEq, Eq, Structural)]
pub enum CacheLevel {
    /// The fast tier for the most frequently read values.
    L1,
    /// The middle tier.
    L2,
    /// The slow tier for rarely read but expensive values.
    L3,
}

/// A proxy's cached validation result.
#[derive(Debug, Clone, Copy)]
pub struct ProxyValidationResult {
    /// Whether the proxy worked when last checked.
    pub is_working: bool,
    /// The check's round trip, in milliseconds.
    pub response_time_ms: u64,
    /// Errors seen so far.
    pub error_count: u32,
    /// Clock reading of the last check.
    pub last_checked_ms: u64,
    /// Whether blocklist screening was clean.
    pub dnsbl_clean: bool,
}

/// A cached screening summary.
#[derive(Debug)]
pub struct DnsblResult {
    /// Whether the address is listed anywhere.
    pub is_listed: bool,
    /// How many lists carry it.
    pub listed_count: u32,
    /// Which lists were consulted.
    pub checked_lists: Vec<String>,
    /// Clock reading of the check.
    pub last_checked_ms: u64,
}

/// The slow cache tier: keyed values with lifetimes, capacity-bounded by
/// evicting the oldest entry.
#[derive(Debug)]
pub struct L3Cache<T> {
    entries: Vec<(String, CacheEntry<T>)>,
    max_size: usize,
    default_ttl_ms: u64,
}

/// The key and lifetime facts of a slot.
pub open spec fn slot_live<T>(e: (Seq<char>, CacheEntry<T>), now: u64) -> bool {
    !spec_entry_expired(e.1.created_at, e.1.ttl_ms, now)
}

/// Keeps the slots still alive at `now`.
pub open spec fn live_slot_pred<T>(now: u64) -> spec_fn((Seq<char>, CacheEntry<T>)) -> bool {
    |e: (Seq<char>, CacheEntry<T>)| slot_live(e, now)
}

/// The first slot under the key, if any.
pub open spec fn find_slot<T>(slots: Seq<(Seq<char>, CacheEntry<T>)>, key: Seq<char>) -> Option<
    (int, CacheEntry<T>),
>
    decreases slots.len(),
{
    if slots.len() == 0 {
        None
    } else if slots[0].0 == key {
        Some((0int, slots[0].1))
    } else {
        match find_slot(slots.drop_first(), key) {
            Some((i, e)) => Some((i + 1, e)),
            None => None,
        }
    }
}

/// `find_slot` ignores a prefix free of the wanted key.
proof fn lemma_find_slot_prefix_miss<T>(
    slots: Seq<(Seq<char>, CacheEntry<T>)>,
    key: Seq<char>,
    i: int,
)
    requires
        0 <= i <= slots.len(),
        forall|j: int| 0 <= j < i ==> (#[trigger] slots[j]).0 != key,
    ensures
        i < slots.len() && slots[i].0 == key ==> find_slot(slots, key) == Some((i, slots[i].1)),
        i == slots.len() ==> find_slot(slots, key) is None,
    decreases i + slots.len(),
{
    if i > 0 {
        assert(slots[0].0 != key);
        assert(slots.drop_first() =~= slots.skip(1));
        assert(forall|j: int|
            0 <= j < i - 1 ==> (#[trigger] slots.drop_first()[j]).0 == slots[j + 1].0);
        lemma_find_slot_prefix_miss(slots.drop_first(), key, i - 1);
        if i < slots.len() && slots[i].0 == key {
            assert(slots.drop_first()[i - 1] == slots[i]);
        }
    } else {
        if slots.len() > 0 && slots[0].0 != key {
            lemma_find_slot_prefix_miss(slots.drop_first(), key, 0);
        }
    }
}

impl<T> L3Cache<T> {
    /// The stored slots, as key/entry pairs.
    pub closed spec fn slots(&self) -> Seq<(Seq<char>, CacheEntry<T>)> {
        Seq::new(self.entries@.len(), |i: int| (self.entries@[i].0@, self.entries@[i].1))
    }

    /// The configured capacity.
    pub closed spec fn spec_max_size(&self) -> usize {
        self.max_size
    }

    /// The default lifetime, in milliseconds.
    pub closed spec fn spec_default_ttl_ms(&self) -> u64 {
        self.default_ttl_ms
    }

    /// An empty tier with the given capacity and default lifetime.
    pub fn new(max_size: usize, default_ttl_ms: u64) -> (r: Self)
        ensures
            r.slots().len() == 0,
            r.spec_max_size() == max_size,
            r.spec_default_ttl_ms() == default_ttl_ms,
    {
        let r = L3Cache { entries: Vec::new(), max_size, default_ttl_ms };
        proof {
            assert(r.slots() =~= Seq::<(Seq<char>, CacheEntry<T>)>::empty());
        }
        r
    }

    /// Index of the first slot under the key, if any.
    fn find_index(&self, key: &str) -> (r: Option<usize>)
        ensures
            match r {
                Some(i) => i < self.slots().len() && find_slot(self.slots(), key@) == Some(
                    (i as int, self.slots()[i as int].1),
                ),
                None => find_slot(self.slots(), key@) is None,
            },
    {
        let n = self.entries.len();
        let mut i: usize = 0;
        while i < n
            invariant
                n == self.entries@.len(),
                0 <= i <= n,
                forall|j: int| 0 <= j < i ==> (#[trigger] self.slots()[j]).0 != key@,
            decreases n - i,
        {
            if str_eq(self.entries[i].0.as_str(), key) {
                proof {
                    assert((self.slots()[i as int]).0 == key@);
                    lemma_find_slot_prefix_miss(self.slots(), key@, i as int);
                }
                return Some(i);
            }
            i = i + 1;
        }
        proof {
            lemma_find_slot_prefix_miss(self.slots(), key@, n as int);
        }
        None
    }

    /// Serves the value stored under the key, provided its lifetime has not
    /// passed; a read marks the slot accessed at `now`. An expired slot is
    /// never served. The value handed out is a clone of the stored one.
    pub fn get(&mut self, key: &str, now: u64) -> (r: Option<T>) where T: Clone
        ensures
            final(self).spec_max_size() == old(self).spec_max_size(),
            final(self).spec_default_ttl_ms() == old(self).spec_default_ttl_ms(),
            r is Some <==> (match find_slot(old(self).slots(), key@) {
                Some((i, e)) => !spec_entry_expired(e.created_at, e.ttl_ms, now),
                None => false,
            }),
            r matches Some(v) ==> (match find_slot(old(self).slots(), key@) {
                Some((i, e)) => cloned::<T>(e.value, v) && final(self).slots().len() == old(
                    self,
                ).slots().len() && final(self).slots()[i].1.last_accessed == now,
                None => false,
            }),
            r is None ==> final(self).slots() == old(self).slots(),
    {
        let found = self.find_index(key);
        match found {
            Some(i) => {
                if self.entries[i].1.is_expired(now) {
                    return None;
                }
                let ghost slots0 = self.slots();
                let (k, mut entry) = self.entries.remove(i);
                entry.mark_accessed(now);
                let value = entry.value.clone();
                self.entries.insert(i, (k, entry));
                proof {
                    assert(self.slots().len() == slots0.len());
                    assert((self.slots()[i as int]).1.last_accessed == now);
                }
                Some(value)
            },
            None => None,
        }
    }

    /// Stores a value under the key at `now`, with the given lifetime or
    /// the default; a full tier evicts its oldest slot first.
    pub fn put(&mut self, key: String, value: T, ttl_ms: Option<u64>, now: u64)
        ensures
            final(self).spec_max_size() == old(self).spec_max_size(),
            final(self).spec_default_ttl_ms() == old(self).spec_default_ttl_ms(),
            final(self).slots().len() >= 1,
            final(self).slots().last().0 == key@,
            final(self).slots().last().1.value == value,
            final(self).slots().last().1.created_at == now,
            final(self).slots().last().1.ttl_ms == (match ttl_ms {
                Some(t) => t,
                None => old(self).spec_default_ttl_ms(),
            }),
            old(self).slots().len() < old(self).spec_max_size() ==> final(self).slots().len()
                == old(self).slots().len() + 1,
    {
        if self.entries.len() >= self.max_size && self.entries.len() > 0 {
            self.evict_oldest();
        }
        let ttl = match ttl_ms {
            Some(t) => t,
            None => self.default_ttl_ms,
        };
        let ghost before = self.slots();
        let entry = CacheEntry::new(value, ttl, now);
        self.entries.push((key, entry));
        proof {
            assert(self.slots() =~= before.push(
                (self.entries@[self.entries@.len() - 1].0@, self.entries@[self.entries@.len() - 1].1),
            ));
        }
    }

    /// Drops the slot with the least creation time.
    pub fn evict_oldest(&mut self)
        requires
            old(self).slots().len() > 0,
        ensures
            final(self).spec_max_size() == old(self).spec_max_size(),
            final(self).spec_default_ttl_ms() == old(self).spec_default_ttl_ms(),
            final(self).slots().len() == old(self).slots().len() - 1,
            exists|m: int|
                0 <= m < old(self).slots().len() && final(self).slots() == old(
                    self,
                ).slots().remove(m) && (forall|j: int|
                    0 <= j < old(self).slots().len() ==> (#[trigger] old(
                        self,
                    ).slots()[j]).1.created_at >= old(self).slots()[m].1.created_at),
    {
        let n = self.entries.len();
        let mut m: usize = 0;
        let mut k: usize = 1;
        while k < n
            invariant
                n == self.entries@.len(),
                0 <= m < k <= n,
                forall|j: int|
                    0 <= j < k ==> (#[trigger] self.slots()[j]).1.created_at
                        >= self.slots()[m as int].1.created_at,
            decreases n - k,
        {
            if self.entries[k].1.created_at < self.entries[m].1.created_at {
                m = k;
            }
            k = k + 1;
        }
        let ghost before = self.slots();
        self.entries.remove(m);
        proof {
            assert(self.slots() =~= before.remove(m as int));
        }
    }

    /// Drops every slot whose lifetime has passed at `now`; says how many
    /// were dropped.
    pub fn cleanup_expired(&mut self, now: u64) -> (r: usize)
        ensures
            final(self).spec_max_size() == old(self).spec_max_size(),
            final(self).spec_default_ttl_ms() == old(self).spec_default_ttl_ms(),
            final(self).slots() == old(self).slots().filter(live_slot_pred(now)),
            r == old(self).slots().len() - final(self).slots().len(),
    {
        broadcast use vstd::prelude::Seq::filter_distributes_over_add;
        broadcast use vstd::prelude::Seq::lemma_filter_len;

        let ghost orig = self.slots();
        let n = self.entries.len();
        let mut i: usize = n;
        while i > 0
            invariant
                n == orig.len(),
                0 <= i <= n,
                self.slots() == orig.take(i as int) + orig.skip(i as int).filter(
                    live_slot_pred(now),
                ),
                self.slots().len() >= i,
                self.max_size == old(self).spec_max_size(),
                self.default_ttl_ms == old(self).spec_default_ttl_ms(),
            decreases i,
        {
            let keep = !self.entries[i - 1].1.is_expired(now);
            proof {
                assert((self.slots()[i - 1]) == orig[i - 1]);
                assert(orig.skip(i - 1) =~= seq![orig[i - 1]] + orig.skip(i as int));
                reveal_with_fuel(Seq::filter, 3);
                assert(seq![orig[i - 1]].drop_last() =~= Seq::<(Seq<char>, CacheEntry<T>)>::empty());
                assert(seq![orig[i - 1]].filter(live_slot_pred(now)) == if live_slot_pred(now)(
                    orig[i - 1],
                ) {
                    seq![orig[i - 1]]
                } else {
                    Seq::<(Seq<char>, CacheEntry<T>)>::empty()
                });
            }
            if !keep {
                let ghost pre = self.slots();
                self.entries.remove(i - 1);
                proof {
                    assert(self.slots() =~= pre.remove(i - 1));
                    assert(pre.remove(i - 1) =~= orig.take(i - 1) + orig.skip(i as int).filter(
                        live_slot_pred(now),
                    ));
                    assert(self.slots() =~= orig.take(i - 1) + orig.skip(i - 1).filter(
                        live_slot_pred(now),
                    ));
                }
            } else {
                proof {
                    assert(self.slots() =~= orig.take(i - 1) + orig.skip(i - 1).filter(
                        live_slot_pred(now),
                    ));
                }
            }
            i = i - 1;
        }
        proof {
            assert(orig.take(0) =~= Seq::<(Seq<char>, CacheEntry<T>)>::empty());
            assert(orig.skip(0) =~= orig);
            assert(self.slots() =~= orig.filter(live_slot_pred(now)));
        }
        n - self.entries.len()
    }

    /// The tier's counters.
    pub fn get_stats(&self) -> (r: L3CacheStats)
        ensures
            r.size == self.slots().len(),
            r.max_size == self.spec_max_size(),
    {
        L3CacheStats { size: self.entries.len(), max_size: self.max_size }
    }
}

} // verus!
