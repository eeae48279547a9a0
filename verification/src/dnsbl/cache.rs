//! Verdict cache with time-to-live and size-bounded eviction. Time enters
//! every operation as an explicit clock reading in milliseconds, so that
//! what each operation does to the cache is stated exactly.

use vstd::prelude::*;

use crate::dnsbl::{DnsblCheckResults, DnsblCheckResultsView, DnsblConfig};
use crate::strutil::str_eq;

verus! {

/// Mathematical image of a cache entry.
pub ghost struct CacheEntryView {
    pub results: DnsblCheckResultsView,
    pub created_at: u64,
    pub expires_at: u64,
    pub last_accessed: u64,
}

/// A cached verdict together with its lifetime and use accounting.
#[derive(Debug)]
pub struct CacheEntry {
    /// The cached verdict.
    pub results: DnsblCheckResults,
    /// Clock reading at which this entry was stored.
    pub created_at: u64,
    /// Clock reading at which this entry stops being served.
    pub expires_at: u64,
    /// Clock reading of the last read, for least-recently-used eviction.
    pub last_accessed: u64,
}

impl View for CacheEntry {
    type V = CacheEntryView;

    open spec fn view(&self) -> CacheEntryView {
        CacheEntryView {
            results: self.results@,
            created_at: self.created_at,
            expires_at: self.expires_at,
            last_accessed: self.last_accessed,
        }
    }
}

impl Clone for CacheEntry {
    fn clone(&self) -> (res: Self)
        ensures
            res@ == self@,
    {
        CacheEntry {
            results: self.results.clone(),
            created_at: self.created_at,
            expires_at: self.expires_at,
            last_accessed: self.last_accessed,
        }
    }
}

/// The entry with its read clock moved to `at`; nothing else changes.
pub open spec fn refreshed(e: CacheEntryView, at: u64) -> CacheEntryView {
    CacheEntryView {
        results: e.results,
        created_at: e.created_at,
        expires_at: e.expires_at,
        last_accessed: at,
    }
}

/// Counters describing the cache's behaviour so far.
#[derive(Debug, Clone, Copy)]
pub struct CacheStats {
    /// Reads answered from the cache.
    pub hits: u64,
    /// Reads the cache could not answer.
    pub misses: u64,
    /// Entries stored.
    pub additions: u64,
    /// Entries dropped, by expiry, eviction or removal.
    pub evictions: u64,
    /// Entries currently held.
    pub current_size: usize,
}

impl Default for CacheStats {
    /// All counters start at zero.
    fn default() -> (r: Self)
        ensures
            r.hits == 0 && r.misses == 0 && r.additions == 0 && r.evictions == 0
                && r.current_size == 0,
    {
        CacheStats { hits: 0, misses: 0, additions: 0, evictions: 0, current_size: 0 }
    }
}

/// Keeps the entries that are still alive at the given clock reading.
pub open spec fn live_pred(now: u64) -> spec_fn((Seq<char>, CacheEntryView)) -> bool {
    |s: (Seq<char>, CacheEntryView)| s.1.expires_at > now
}

/// The first entry stored under the given key, if any.
pub open spec fn find_entry(entries: Seq<(Seq<char>, CacheEntryView)>, ip: Seq<char>) -> Option<
    CacheEntryView,
>
    decreases entries.len(),
{
    if entries.len() == 0 {
        None
    } else if entries[0].0 == ip {
        Some(entries[0].1)
    } else {
        find_entry(entries.drop_first(), ip)
    }
}

/// What a read at clock `now` returns: the entry stored under the key,
/// provided it has not expired. An expired entry is never served.
pub open spec fn spec_lookup(
    entries: Seq<(Seq<char>, CacheEntryView)>,
    ip: Seq<char>,
    now: u64,
) -> Option<DnsblCheckResultsView> {
    match find_entry(entries, ip) {
        Some(e) => if e.expires_at > now {
            Some(e.results)
        } else {
            None
        },
        None => None,
    }
}

/// No two entries share a key.
pub open spec fn unique_keys(entries: Seq<(Seq<char>, CacheEntryView)>) -> bool {
    forall|i: int, j: int|
        0 <= i < j < entries.len() ==> (#[trigger] entries[i]).0 != (#[trigger] entries[j]).0
}

/// A served verdict always comes from an entry that is still alive: the
/// entry was stored under the same key and its expiry lies after the read.
pub proof fn lemma_expired_never_returned(
    entries: Seq<(Seq<char>, CacheEntryView)>,
    ip: Seq<char>,
    now: u64,
)
    requires
        spec_lookup(entries, ip, now) is Some,
    ensures
        exists|i: int|
            0 <= i < entries.len() && (#[trigger] entries[i]).0 == ip && entries[i].1.expires_at
                > now && spec_lookup(entries, ip, now) == Some(entries[i].1.results),
    decreases entries.len(),
{
    if entries[0].0 == ip {
        assert(entries[0].0 == ip && entries[0].1.expires_at > now);
    } else {
        lemma_expired_never_returned(entries.drop_first(), ip, now);
        let i = choose|i: int|
            0 <= i < entries.drop_first().len() && (#[trigger] entries.drop_first()[i]).0 == ip
                && entries.drop_first()[i].1.expires_at > now && spec_lookup(
                entries.drop_first(),
                ip,
                now,
            ) == Some(entries.drop_first()[i].1.results);
        assert((entries[i + 1]).0 == ip && entries[i + 1].1.expires_at > now);
    }
}

/// Two reads of the same unchanged cache, both within the entry's
/// lifetime, return the same verdict.
pub proof fn lemma_cache_read_idempotent(
    entries: Seq<(Seq<char>, CacheEntryView)>,
    ip: Seq<char>,
    t1: u64,
    t2: u64,
)
    requires
        spec_lookup(entries, ip, t1) is Some,
        spec_lookup(entries, ip, t2) is Some,
    ensures
        spec_lookup(entries, ip, t1) == spec_lookup(entries, ip, t2),
{
}

/// Refreshing one entry's read clock changes no read's answer and keeps
/// the keys unique.
pub proof fn lemma_lookup_after_refresh(
    entries: Seq<(Seq<char>, CacheEntryView)>,
    i: int,
    at: u64,
    t: u64,
)
    requires
        unique_keys(entries),
        0 <= i < entries.len(),
    ensures
        unique_keys(entries.update(i, (entries[i].0, refreshed(entries[i].1, at)))),
        forall|k: Seq<char>|
            spec_lookup(
                entries.update(i, (entries[i].0, refreshed(entries[i].1, at))),
                k,
                t,
            ) == #[trigger] spec_lookup(entries, k, t),
{
    let updated = entries.update(i, (entries[i].0, refreshed(entries[i].1, at)));
    assert(forall|j: int| 0 <= j < entries.len() ==> (#[trigger] updated[j]).0 == entries[j].0);
    assert forall|a: int, b: int| 0 <= a < b < updated.len() implies (#[trigger] updated[a]).0
        != (#[trigger] updated[b]).0 by {
        assert(entries[a].0 != entries[b].0);
    }
    assert forall|k: Seq<char>|
        spec_lookup(updated, k, t) == #[trigger] spec_lookup(entries, k, t) by {
        lemma_find_entry_absent(entries, k);
        lemma_find_entry_absent(updated, k);
        if exists|j: int| 0 <= j < entries.len() && (#[trigger] entries[j]).0 == k {
            let j = choose|j: int| 0 <= j < entries.len() && (#[trigger] entries[j]).0 == k;
            lemma_find_entry_at(entries, k, j);
            lemma_find_entry_at(updated, k, j);
        }
    }
}

/// A sequence without the key finds nothing, and the other way round.
proof fn lemma_find_entry_absent(entries: Seq<(Seq<char>, CacheEntryView)>, ip: Seq<char>)
    ensures
        find_entry(entries, ip) is None <==> (forall|j: int|
            0 <= j < entries.len() ==> (#[trigger] entries[j]).0 != ip),
    decreases entries.len(),
{
    if entries.len() > 0 && entries[0].0 != ip {
        lemma_find_entry_absent(entries.drop_first(), ip);
        if find_entry(entries, ip) is None {
            assert forall|j: int| 0 <= j < entries.len() implies (#[trigger] entries[j]).0
                != ip by {
                if j >= 1 {
                    assert(entries.drop_first()[j - 1] == entries[j]);
                }
            }
        } else {
            let j = choose|j: int|
                0 <= j < entries.drop_first().len() && (#[trigger] entries.drop_first()[j]).0
                    == ip;
            assert(entries[j + 1].0 == ip);
        }
    }
}

/// With unique keys, the entry at the key's slot is the one found.
proof fn lemma_find_entry_at(entries: Seq<(Seq<char>, CacheEntryView)>, ip: Seq<char>, i: int)
    requires
        unique_keys(entries),
        0 <= i < entries.len(),
        entries[i].0 == ip,
    ensures
        find_entry(entries, ip) == Some(entries[i].1),
    decreases i,
{
    if i == 0 {
    } else {
        assert(entries[0].0 != ip);
        assert(forall|a: int, b: int|
            0 <= a < b < entries.drop_first().len() ==> (#[trigger] entries.drop_first()[a]).0
                != (#[trigger] entries.drop_first()[b]).0) by {
            assert(forall|a: int|
                0 <= a < entries.drop_first().len() ==> #[trigger] entries.drop_first()[a]
                    == entries[a + 1]);
        }
        assert(entries.drop_first()[i - 1] == entries[i]);
        lemma_find_entry_at(entries.drop_first(), ip, i - 1);
    }
}

/// Removing one slot keeps the keys unique.
proof fn lemma_unique_remove(entries: Seq<(Seq<char>, CacheEntryView)>, i: int)
    requires
        unique_keys(entries),
        0 <= i < entries.len(),
    ensures
        unique_keys(entries.remove(i)),
{
    let rest = entries.remove(i);
    assert forall|a: int, b: int| 0 <= a < b < rest.len() implies (#[trigger] rest[a]).0 != (
    #[trigger] rest[b]).0 by {
        let a0 = if a < i {
            a
        } else {
            a + 1
        };
        let b0 = if b < i {
            b
        } else {
            b + 1
        };
        assert(rest[a] == entries[a0] && rest[b] == entries[b0]);
    }
}

/// Dropping dead entries does not change what a read at `now` returns,
/// provided each key is stored once.
pub proof fn lemma_lookup_after_cleanup(
    entries: Seq<(Seq<char>, CacheEntryView)>,
    ip: Seq<char>,
    now: u64,
)
    requires
        unique_keys(entries),
    ensures
        spec_lookup(entries.filter(live_pred(now)), ip, now) == spec_lookup(entries, ip, now),
{
    let f = entries.filter(live_pred(now));
    lemma_filter_unique(entries, now);
    lemma_find_entry_absent(entries, ip);
    lemma_find_entry_absent(f, ip);
    if find_entry(entries, ip) is None {
        assert forall|k: int| 0 <= k < f.len() implies (#[trigger] f[k]).0 != ip by {
            lemma_filter_member_of(entries, now, k);
            let j = choose|j: int| 0 <= j < entries.len() && entries[j] == f[k];
        }
    } else {
        let i = choose|i: int| 0 <= i < entries.len() && (#[trigger] entries[i]).0 == ip;
        lemma_find_entry_at(entries, ip, i);
        if entries[i].1.expires_at > now {
            assert(live_pred(now)(entries[i]));
            entries.lemma_filter_contains(live_pred(now), i);
            let k = choose|k: int| 0 <= k < f.len() && f[k] == entries[i];
            lemma_find_entry_at(f, ip, k);
        } else {
            assert forall|k: int| 0 <= k < f.len() implies (#[trigger] f[k]).0 != ip by {
                lemma_filter_member_of(entries, now, k);
                let j = choose|j: int| 0 <= j < entries.len() && entries[j] == f[k];
                broadcast use vstd::prelude::Seq::lemma_filter_pred;

                if f[k].0 == ip {
                    assert(entries[j].0 == entries[i].0);
                    assert(j == i);
                }
            }
        }
    }
}

/// Cache of screening verdicts, bounded in size, entries bounded in age.
#[derive(Debug)]
pub struct DnsblCache {
    cache: Vec<(String, CacheEntry)>,
    default_ttl_ms: u64,
    max_entries: usize,
    stats: CacheStats,
}

impl DnsblCache {
    /// The stored entries, as key/entry pairs in storage order.
    pub closed spec fn entries(&self) -> Seq<(Seq<char>, CacheEntryView)> {
        Seq::new(self.cache@.len(), |i: int| (self.cache@[i].0@, self.cache@[i].1@))
    }

    /// The configured default lifetime of an entry, in milliseconds.
    pub closed spec fn spec_default_ttl_ms(&self) -> u64 {
        self.default_ttl_ms
    }

    /// The configured capacity.
    pub closed spec fn spec_max_entries(&self) -> usize {
        self.max_entries
    }

    /// The counters.
    pub closed spec fn spec_stats(&self) -> CacheStats {
        self.stats
    }

    /// Each key is stored at most once.
    pub open spec fn wf(&self) -> bool {
        unique_keys(self.entries())
    }

    /// An hour of lifetime and ten thousand entries.
    pub fn new() -> (r: Self)
        ensures
            r.wf(),
            r.entries().len() == 0,
            r.spec_default_ttl_ms() == 3600000,
            r.spec_max_entries() == 10000,
            r.spec_stats().hits == 0,
            r.spec_stats().misses == 0,
            r.spec_stats().additions == 0,
            r.spec_stats().evictions == 0,
            r.spec_stats().current_size == 0,
    {
        Self::with_settings(3600000, 10000)
    }

    /// A cache with the given lifetime (milliseconds) and capacity.
    pub fn with_settings(ttl_ms: u64, max_entries: usize) -> (r: Self)
        ensures
            r.wf(),
            r.entries().len() == 0,
            r.spec_default_ttl_ms() == ttl_ms,
            r.spec_max_entries() == max_entries,
            r.spec_stats().hits == 0,
            r.spec_stats().misses == 0,
            r.spec_stats().additions == 0,
            r.spec_stats().evictions == 0,
            r.spec_stats().current_size == 0,
    {
        let r = DnsblCache {
            cache: Vec::new(),
            default_ttl_ms: ttl_ms,
            max_entries,
            stats: CacheStats::default(),
        };
        proof {
            assert(r.entries() =~= Seq::<(Seq<char>, CacheEntryView)>::empty());
        }
        r
    }

    /// Index of the entry stored under the key, if any.
    fn find_index(&self, ip: &str) -> (r: Option<usize>)
        ensures
            match r {
                Some(i) => i < self.entries().len() && self.entries()[i as int].0 == ip@
                    && find_entry(self.entries(), ip@) == Some(self.entries()[i as int].1),
                None => find_entry(self.entries(), ip@) is None,
            },
    {
        let n = self.cache.len();
        let mut i: usize = 0;
        while i < n
            invariant
                n == self.cache@.len(),
                0 <= i <= n,
                forall|j: int| 0 <= j < i ==> (#[trigger] self.entries()[j]).0 != ip@,
            decreases n - i,
        {
            if str_eq(self.cache[i].0.as_str(), ip) {
                proof {
                    lemma_find_entry_prefix_miss(self.entries(), ip@, i as int);
                    assert(self.entries().skip(i as int)[0] == self.entries()[i as int]);
                }
                return Some(i);
            }
            i = i + 1;
        }
        proof {
            lemma_find_entry_prefix_miss(self.entries(), ip@, n as int);
            assert(self.entries().skip(n as int).len() == 0);
        }
        None
    }

    /// Serves the verdict stored for the IP, provided it is alive at `now`.
    /// Dead entries are dropped first, so an expired verdict is never
    /// returned; a served entry has its read clock moved to `now`, which
    /// changes no read's answer. A hit moves only the hit counter, a miss
    /// only the miss counter.
    pub fn get(&mut self, ip: &str, now: u64) -> (r: Option<DnsblCheckResults>)
        requires
            old(self).wf(),
        ensures
            final(self).wf(),
            final(self).entries().len() == old(self).entries().filter(live_pred(now)).len(),
            forall|k: Seq<char>|
                spec_lookup(final(self).entries(), k, now) == #[trigger] spec_lookup(
                    old(self).entries(),
                    k,
                    now,
                ),
            r is Some <==> spec_lookup(old(self).entries(), ip@, now) is Some,
            r matches Some(v) ==> Some(v@) == spec_lookup(old(self).entries(), ip@, now),
            r is Some ==> exists|i: int|
                0 <= i < final(self).entries().len() && (#[trigger] final(self).entries()[i]).0
                    == ip@ && final(self).entries()[i].1.last_accessed == now,
            r is None ==> final(self).entries() == old(self).entries().filter(live_pred(now)),
            final(self).spec_default_ttl_ms() == old(self).spec_default_ttl_ms(),
            final(self).spec_max_entries() == old(self).spec_max_entries(),
            final(self).spec_stats().hits == if r is Some {
                sat_add(old(self).spec_stats().hits, 1)
            } else {
                old(self).spec_stats().hits
            },
            final(self).spec_stats().misses == if r is Some {
                old(self).spec_stats().misses
            } else {
                sat_add(old(self).spec_stats().misses, 1)
            },
            final(self).spec_stats().additions == old(self).spec_stats().additions,
            final(self).spec_stats().evictions == sat_add(
                old(self).spec_stats().evictions,
                (old(self).entries().len() - final(self).entries().len()) as u64,
            ),
            final(self).spec_stats().current_size == final(self).entries().len(),
    {
        self.cleanup_expired(now);
        proof {
            assert forall|k: Seq<char>|
                spec_lookup(self.entries(), k, now) == #[trigger] spec_lookup(
                    old(self).entries(),
                    k,
                    now,
                ) by {
                lemma_lookup_after_cleanup(old(self).entries(), k, now);
            }
        }
        let ghost filtered = self.entries();
        let found = self.find_index(ip);
        match found {
            Some(i) => {
                proof {
                    broadcast use vstd::prelude::Seq::lemma_filter_pred;

                }
                self.stats.hits = self.stats.hits.saturating_add(1);
                let (key, mut entry) = self.cache.remove(i);
                entry.last_accessed = now;
                let entry_results = entry.results.clone();
                self.cache.insert(i, (key, entry));
                proof {
                    assert(self.entries() =~= filtered.update(
                        i as int,
                        (filtered[i as int].0, refreshed(filtered[i as int].1, now)),
                    ));
                    lemma_lookup_after_refresh(filtered, i as int, now, now);
                    assert((self.entries()[i as int]).0 == ip@);
                    assert((self.entries()[i as int]).1.last_accessed == now);
                }
                Some(entry_results)
            },
            None => {
                self.stats.misses = self.stats.misses.saturating_add(1);
                None
            },
        }
    }

    /// Stores a verdict under the default lifetime.
    pub fn put(&mut self, ip: String, results: DnsblCheckResults, now: u64)
        requires
            old(self).wf(),
        ensures
            final(self).wf(),
            find_entry(final(self).entries(), ip@) == Some(
                CacheEntryView {
                    results: results@,
                    created_at: now,
                    expires_at: sat_add(now, old(self).spec_default_ttl_ms()),
                    last_accessed: now,
                },
            ),
            forall|k: int|
                #![trigger final(self).entries()[k]]
                0 <= k < final(self).entries().len() && final(self).entries()[k].0 != ip@
                    ==> old(self).entries().contains(final(self).entries()[k]),
            final(self).spec_stats().additions == sat_add(old(self).spec_stats().additions, 1),
            final(self).spec_stats().current_size == final(self).entries().len(),
            final(self).entries().len() <= old(self).entries().len() + 1,
            final(self).spec_stats().hits == old(self).spec_stats().hits,
            final(self).spec_stats().misses == old(self).spec_stats().misses,
            final(self).spec_stats().evictions == sat_add(
                old(self).spec_stats().evictions,
                (old(self).entries().len() + 1 - final(self).entries().len()) as u64,
            ),
            old(self).entries().len() <= old(self).spec_max_entries() && old(self).spec_max_entries() >= 1 ==> final(self).entries().len() <= old(self).spec_max_entries(),
            forall|a: int, b: int|
                #![trigger old(self).entries()[a], old(self).entries()[b]]
                0 <= a < old(self).entries().len() && 0 <= b < old(self).entries().len() && old(self).entries()[a].0 != ip@ && old(self).entries()[b].0 != ip@ && !final(self).entries().contains(old(self).entries()[a]) && final(self).entries().contains(
                    old(self).entries()[b],
                ) ==> old(self).entries()[a].1.last_accessed <= old(self).entries()[b].1.last_accessed,
            final(self).spec_default_ttl_ms() == old(self).spec_default_ttl_ms(),
            final(self).spec_max_entries() == old(self).spec_max_entries(),
    {
        let ttl = self.default_ttl_ms;
        self.put_with_ttl(ip, results, ttl, now)
    }

    /// Stores a verdict with the given lifetime in milliseconds. Any entry
    /// already stored under the key is replaced; when the cache is full,
    /// the oldest entry makes room.
    #[verifier::rlimit(60)]
    pub fn put_with_ttl(&mut self, ip: String, results: DnsblCheckResults, ttl_ms: u64, now: u64)
        requires
            old(self).wf(),
        ensures
            final(self).wf(),
            find_entry(final(self).entries(), ip@) == Some(
                CacheEntryView {
                    results: results@,
                    created_at: now,
                    expires_at: sat_add(now, ttl_ms),
                    last_accessed: now,
                },
            ),
            forall|k: int|
                #![trigger final(self).entries()[k]]
                0 <= k < final(self).entries().len() && final(self).entries()[k].0 != ip@
                    ==> old(self).entries().contains(final(self).entries()[k]),
            final(self).spec_stats().additions == sat_add(old(self).spec_stats().additions, 1),
            final(self).spec_stats().current_size == final(self).entries().len(),
            final(self).entries().len() <= old(self).entries().len() + 1,
            final(self).spec_stats().hits == old(self).spec_stats().hits,
            final(self).spec_stats().misses == old(self).spec_stats().misses,
            final(self).spec_stats().evictions == sat_add(
                old(self).spec_stats().evictions,
                (old(self).entries().len() + 1 - final(self).entries().len()) as u64,
            ),
            old(self).entries().len() <= old(self).spec_max_entries() && old(self).spec_max_entries() >= 1 ==> final(self).entries().len() <= old(self).spec_max_entries(),
            forall|a: int, b: int|
                #![trigger old(self).entries()[a], old(self).entries()[b]]
                0 <= a < old(self).entries().len() && 0 <= b < old(self).entries().len() && old(self).entries()[a].0 != ip@ && old(self).entries()[b].0 != ip@ && !final(self).entries().contains(old(self).entries()[a]) && final(self).entries().contains(
                    old(self).entries()[b],
                ) ==> old(self).entries()[a].1.last_accessed <= old(self).entries()[b].1.last_accessed,
            final(self).spec_default_ttl_ms() == old(self).spec_default_ttl_ms(),
            final(self).spec_max_entries() == old(self).spec_max_entries(),
    {
        let ghost entries0 = self.entries();
        match self.find_index(&ip) {
            Some(i) => {
                self.cache.remove(i);
                self.stats.evictions = self.stats.evictions.saturating_add(1);
                proof {
                    assert(self.entries() =~= entries0.remove(i as int));
                    assert(exists|x: int|
                        0 <= x < entries0.len() && (#[trigger] entries0[x]).0 == ip@
                            && self.entries() == entries0.remove(x)) by {
                        assert(entries0[i as int].0 == ip@);
                        assert(self.entries() == entries0.remove(i as int));
                    }
                    lemma_unique_remove(entries0, i as int);
                    assert forall|k: int|
                        0 <= k < self.entries().len() implies (#[trigger] self.entries()[k]).0
                        != ip@ && entries0.contains(self.entries()[k]) by {
                        let k0 = if k < i {
                            k
                        } else {
                            k + 1
                        };
                        assert(self.entries()[k] == entries0[k0]);
                    }
                }
            },
            None => {
                proof {
                    lemma_find_entry_absent(entries0, ip@);
                }
            },
        }
        let ghost entries1 = self.entries();
        proof {
            assert forall|k: int|
                0 <= k < entries0.len() && (#[trigger] entries0[k]).0 != ip@ implies
                entries1.contains(entries0[k]) by {
                if entries1 =~= entries0 {
                } else {
                    let i = choose|i: int|
                        0 <= i < entries0.len() && entries0[i].0 == ip@ && entries1
                            == entries0.remove(i);
                    let k1 = if k < i {
                        k
                    } else {
                        k - 1
                    };
                    assert(entries1[k1] == entries0[k]);
                }
            }
        }
        if self.cache.len() >= self.max_entries && self.cache.len() > 0 {
            self.evict_lru();
        }
        let ghost entries2 = self.entries();
        proof {
            assert forall|k: int|
                0 <= k < entries2.len() implies (#[trigger] entries2[k]).0 != ip@
                && entries0.contains(entries2[k]) by {
                if entries2 =~= entries1 {
                } else {
                    assert(entries1.contains(entries2[k]));
                    let j = choose|j: int| 0 <= j < entries1.len() && entries1[j] == entries2[k];
                }
            }
        }
        let entry = CacheEntry {
            results,
            created_at: now,
            expires_at: now.saturating_add(ttl_ms),
            last_accessed: now,
        };
        self.cache.push((ip, entry));
        self.stats.additions = self.stats.additions.saturating_add(1);
        self.stats.current_size = self.cache.len();
        proof {
            let ev = CacheEntryView {
                results: entry.results@,
                created_at: now,
                expires_at: sat_add(now, ttl_ms),
                last_accessed: now,
            };
            assert(self.entries() =~= entries2.push((ip@, ev)));
            lemma_find_entry_key_present(self.entries(), ip@);
            assert forall|a: int, b: int|
                0 <= a < b < self.entries().len() implies (#[trigger] self.entries()[a]).0 != (
            #[trigger] self.entries()[b]).0 by {
                if b < entries2.len() {
                    assert(self.entries()[a] == entries2[a] && self.entries()[b] == entries2[b]);
                } else {
                    assert(self.entries()[a] == entries2[a]);
                    assert(self.entries()[b].0 == ip@);
                }
            }
            let fin = self.entries();
            assert forall|a: int, b: int|
                0 <= a < entries0.len() && 0 <= b < entries0.len() && (
                #[trigger] entries0[a]).0 != ip@ && (#[trigger] entries0[b]).0 != ip@
                    && !fin.contains(entries0[a]) && fin.contains(entries0[b]) implies
                entries0[a].1.last_accessed <= entries0[b].1.last_accessed by {
                assert(entries1.contains(entries0[a]));
                let ja = choose|j: int| 0 <= j < entries1.len() && entries1[j] == entries0[a];
                if entries2 == entries1 {
                    assert(fin[ja] == entries1[ja]);
                    assert(fin.contains(entries0[a]));
                } else {
                    let m = choose|m: int|
                        0 <= m < entries1.len() && entries2 == entries1.remove(m) && (forall|
                            j: int,
                        |
                            0 <= j < entries1.len() ==> entries1[m].1.last_accessed <= (
                            #[trigger] entries1[j]).1.last_accessed);
                    if ja != m {
                        let ja2 = if ja < m {
                            ja
                        } else {
                            ja - 1
                        };
                        assert(entries2[ja2] == entries1[ja]);
                        assert(fin[ja2] == entries2[ja2]);
                        assert(fin.contains(entries0[a]));
                    } else {
                        assert(entries0[a] == entries1[m]);
                        assert(entries1.contains(entries0[b]));
                        let jb = choose|j: int|
                            0 <= j < entries1.len() && entries1[j] == entries0[b];
                        assert(entries1[m].1.last_accessed <= entries1[jb].1.last_accessed);
                    }
                }
            }
        }
    }

    /// Drops the least recently used entry.
    fn evict_lru(&mut self)
        requires
            old(self).wf(),
            old(self).entries().len() > 0,
        ensures
            final(self).wf(),
            final(self).entries().len() == old(self).entries().len() - 1,
            exists|m: int|
                0 <= m < old(self).entries().len() && final(self).entries() == old(self).entries().remove(m) && (forall|j: int|
                    0 <= j < old(self).entries().len() ==> old(self).entries()[m].1.last_accessed <= (#[trigger] old(self).entries()[j]).1.last_accessed),
            final(self).spec_stats().evictions == sat_add(old(self).spec_stats().evictions, 1),
            final(self).spec_stats().hits == old(self).spec_stats().hits,
            final(self).spec_stats().misses == old(self).spec_stats().misses,
            final(self).spec_stats().additions == old(self).spec_stats().additions,
            final(self).spec_stats().current_size == old(self).spec_stats().current_size,
            final(self).spec_default_ttl_ms() == old(self).spec_default_ttl_ms(),
            final(self).spec_max_entries() == old(self).spec_max_entries(),
    {
        let n = self.cache.len();
        let mut m: usize = 0;
        let mut k: usize = 1;
        while k < n
            invariant
                n == self.cache@.len(),
                0 <= m < k <= n,
                forall|j: int|
                    0 <= j < k ==> (self.entries()[m as int]).1.last_accessed <= (
                    #[trigger] self.entries()[j]).1.last_accessed,
            decreases n - k,
        {
            if self.cache[k].1.last_accessed < self.cache[m].1.last_accessed {
                m = k;
            }
            k = k + 1;
        }
        let ghost entries0 = self.entries();
        self.cache.remove(m);
        self.stats.evictions = self.stats.evictions.saturating_add(1);
        proof {
            assert(self.entries() =~= entries0.remove(m as int));
            lemma_unique_remove(entries0, m as int);
        }
    }

    /// Removes the entry stored under the key, returning its verdict.
    pub fn remove(&mut self, ip: &str) -> (r: Option<DnsblCheckResults>)
        requires
            old(self).wf(),
        ensures
            final(self).wf(),
            r is Some <==> find_entry(old(self).entries(), ip@) is Some,
            r matches Some(v) ==> (match find_entry(old(self).entries(), ip@) {
                Some(e) => e.results == v@,
                None => false,
            }),
            find_entry(final(self).entries(), ip@) is None,
            forall|k: int|
                0 <= k < final(self).entries().len() ==> old(self).entries().contains(
                    #[trigger] final(self).entries()[k],
                ),
            final(self).spec_stats().evictions == if r is Some {
                sat_add(old(self).spec_stats().evictions, 1)
            } else {
                old(self).spec_stats().evictions
            },
            final(self).spec_stats().current_size == final(self).entries().len(),
    {
        match self.find_index(ip) {
            Some(i) => {
                let ghost entries0 = self.entries();
                let (_, entry) = self.cache.remove(i);
                self.stats.evictions = self.stats.evictions.saturating_add(1);
                self.stats.current_size = self.cache.len();
                proof {
                    assert(self.entries() =~= entries0.remove(i as int));
                    lemma_find_entry_unique_removed(entries0, ip@, i as int);
                }
                Some(entry.results)
            },
            None => {
                self.stats.current_size = self.cache.len();
                None
            },
        }
    }

    /// Drops every entry.
    pub fn clear(&mut self)
        requires
            old(self).wf(),
        ensures
            final(self).wf(),
            final(self).entries().len() == 0,
            final(self).spec_stats().evictions == sat_add(
                old(self).spec_stats().evictions,
                old(self).entries().len() as u64,
            ),
            final(self).spec_stats().current_size == 0,
            final(self).spec_default_ttl_ms() == old(self).spec_default_ttl_ms(),
            final(self).spec_max_entries() == old(self).spec_max_entries(),
    {
        let count = self.cache.len();
        self.cache.clear();
        self.stats.evictions = self.stats.evictions.saturating_add(count as u64);
        self.stats.current_size = 0;
        proof {
            assert(self.entries() =~= Seq::<(Seq<char>, CacheEntryView)>::empty());
        }
    }

    /// Drops every entry whose lifetime has ended at `now`.
    pub fn cleanup_expired(&mut self, now: u64)
        requires
            old(self).wf(),
        ensures
            final(self).wf(),
            final(self).entries() == old(self).entries().filter(live_pred(now)),
            final(self).spec_stats().evictions == sat_add(
                old(self).spec_stats().evictions,
                (old(self).entries().len() - final(self).entries().len()) as u64,
            ),
            final(self).spec_stats().hits == old(self).spec_stats().hits,
            final(self).spec_stats().misses == old(self).spec_stats().misses,
            final(self).spec_stats().additions == old(self).spec_stats().additions,
            final(self).spec_stats().current_size == final(self).entries().len(),
            final(self).spec_default_ttl_ms() == old(self).spec_default_ttl_ms(),
            final(self).spec_max_entries() == old(self).spec_max_entries(),
    {
        let n = self.cache.len();
        let mut kept: Vec<(String, CacheEntry)> = Vec::new();
        let mut i: usize = 0;
        while i < n
            invariant
                n == self.cache@.len(),
                0 <= i <= n,
                Seq::new(kept@.len(), |j: int| (kept@[j].0@, kept@[j].1@)) == self.entries().take(
                    i as int,
                ).filter(live_pred(now)),
            decreases n - i,
        {
            let ghost prevk = Seq::new(kept@.len(), |j: int| (kept@[j].0@, kept@[j].1@));
            if self.cache[i].1.expires_at > now {
                let key = self.cache[i].0.clone();
                let entry = self.cache[i].1.clone();
                kept.push((key, entry));
            }
            proof {
                reveal(Seq::filter);
                let ev = self.entries();
                assert(ev.take(i + 1).drop_last() =~= ev.take(i as int));
                assert(ev.take(i + 1).last() == ev[i as int]);
                let newk = Seq::new(kept@.len(), |j: int| (kept@[j].0@, kept@[j].1@));
                if live_pred(now)(ev[i as int]) {
                    assert(newk =~= prevk.push(ev[i as int]));
                } else {
                    assert(newk =~= prevk);
                }
            }
            i = i + 1;
        }
        let ghost before = self.entries();
        let removed = self.cache.len() - kept.len();
        proof {
            broadcast use vstd::prelude::Seq::lemma_filter_len;

            assert(before.take(n as int) =~= before);
            assert(Seq::new(kept@.len(), |j: int| (kept@[j].0@, kept@[j].1@)).len()
                == before.filter(live_pred(now)).len());
        }
        self.cache = kept;
        self.stats.evictions = self.stats.evictions.saturating_add(removed as u64);
        self.stats.current_size = self.cache.len();
        proof {
            assert(self.entries() =~= before.filter(live_pred(now)));
            lemma_filter_unique(before, now);
        }
    }

    /// The counters.
    pub fn get_stats(&self) -> (r: &CacheStats)
        ensures
            *r == self.spec_stats(),
    {
        &self.stats
    }

    /// Starts the counters over; the size counter reflects what is held.
    pub fn reset_stats(&mut self)
        ensures
            final(self).entries() == old(self).entries(),
            final(self).spec_stats().hits == 0,
            final(self).spec_stats().misses == 0,
            final(self).spec_stats().additions == 0,
            final(self).spec_stats().evictions == 0,
            final(self).spec_stats().current_size == final(self).entries().len(),
            final(self).spec_default_ttl_ms() == old(self).spec_default_ttl_ms(),
            final(self).spec_max_entries() == old(self).spec_max_entries(),
    {
        let size = self.cache.len();
        self.stats = CacheStats { hits: 0, misses: 0, additions: 0, evictions: 0, current_size: size };
    }

    /// How many entries will expire within the next five minutes after `now`.
    pub fn expiring_soon_count(&self, now: u64) -> (r: usize)
        ensures
            r == self.entries().filter(expiring_pred(sat_add(now, 300000))).len(),
    {
        let soon = now.saturating_add(300000);
        let n = self.cache.len();
        let mut count: usize = 0;
        let mut i: usize = 0;
        while i < n
            invariant
                n == self.cache@.len(),
                0 <= i <= n,
                count == self.entries().take(i as int).filter(expiring_pred(soon)).len(),
                count <= i,
                soon == sat_add(now, 300000),
            decreases n - i,
        {
            proof {
                reveal(Seq::filter);
                let ev = self.entries();
                assert(ev.take(i + 1).drop_last() =~= ev.take(i as int));
                assert(ev.take(i + 1).last() == ev[i as int]);
            }
            if self.cache[i].1.expires_at <= soon {
                count = count + 1;
            }
            i = i + 1;
        }
        proof {
            assert(self.entries().take(n as int) =~= self.entries());
        }
        count
    }

    /// Rough memory footprint: a kibibyte per entry.
    pub fn memory_usage_estimate(&self) -> (r: usize)
        ensures
            r == if self.entries().len() * 1024 <= usize::MAX {
                (self.entries().len() * 1024) as int
            } else {
                usize::MAX as int
            },
    {
        if self.cache.len() > usize::MAX / 1024 {
            usize::MAX
        } else {
            self.cache.len() * 1024
        }
    }
}

/// Keeps the entries that expire at or before the given deadline.
pub open spec fn expiring_pred(deadline: u64) -> spec_fn((Seq<char>, CacheEntryView)) -> bool {
    |s: (Seq<char>, CacheEntryView)| s.1.expires_at <= deadline
}

/// Unsigned addition clamped at the integer ceiling.
pub open spec fn sat_add(a: u64, b: u64) -> u64 {
    if a + b <= u64::MAX {
        (a + b) as u64
    } else {
        u64::MAX
    }
}

/// `find_entry` ignores a prefix free of the wanted key.
proof fn lemma_find_entry_prefix_miss(
    entries: Seq<(Seq<char>, CacheEntryView)>,
    ip: Seq<char>,
    i: int,
)
    requires
        0 <= i <= entries.len(),
        forall|j: int| 0 <= j < i ==> (#[trigger] entries[j]).0 != ip,
    ensures
        find_entry(entries, ip) == find_entry(entries.skip(i), ip),
    decreases i,
{
    if i > 0 {
        assert(entries[0].0 != ip);
        assert(entries.drop_first() =~= entries.skip(1));
        lemma_find_entry_prefix_miss(entries.drop_first(), ip, i - 1);
        assert(entries.drop_first().skip(i - 1) =~= entries.skip(i));
    } else {
        assert(entries.skip(0) =~= entries);
    }
}

/// A key present in the last slot is found when no earlier slot holds it.
proof fn lemma_find_entry_key_present(entries: Seq<(Seq<char>, CacheEntryView)>, ip: Seq<char>)
    requires
        entries.len() > 0,
        entries.last().0 == ip,
        forall|j: int| 0 <= j < entries.len() - 1 ==> (#[trigger] entries[j]).0 != ip,
    ensures
        find_entry(entries, ip) == Some(entries.last().1),
    decreases entries.len(),
{
    if entries.len() == 1 {
    } else {
        assert(entries[0].0 != ip);
        assert(entries.drop_first().last() == entries.last());
        assert(forall|j: int|
            0 <= j < entries.drop_first().len() - 1 ==> (#[trigger] entries.drop_first()[j]).0
                == entries[j + 1].0);
        lemma_find_entry_key_present(entries.drop_first(), ip);
    }
}

/// After removing the only slot with the key, the key is absent.
proof fn lemma_find_entry_unique_removed(
    entries: Seq<(Seq<char>, CacheEntryView)>,
    ip: Seq<char>,
    i: int,
)
    requires
        unique_keys(entries),
        0 <= i < entries.len(),
        entries[i].0 == ip,
    ensures
        find_entry(entries.remove(i), ip) is None,
{
    let rest = entries.remove(i);
    assert forall|j: int| 0 <= j < rest.len() implies (#[trigger] rest[j]).0 != ip by {
        if j < i {
            assert(rest[j] == entries[j]);
        } else {
            assert(rest[j] == entries[j + 1]);
        }
    }
    lemma_find_entry_prefix_miss(rest, ip, rest.len() as int);
    assert(rest.skip(rest.len() as int).len() == 0);
}

/// Filtering keeps keys unique.
proof fn lemma_filter_unique(entries: Seq<(Seq<char>, CacheEntryView)>, now: u64)
    requires
        unique_keys(entries),
    ensures
        unique_keys(entries.filter(live_pred(now))),
    decreases entries.len(),
{
    reveal(Seq::filter);
    if entries.len() > 0 {
        assert(forall|j: int|
            0 <= j < entries.drop_last().len() ==> #[trigger] entries.drop_last()[j]
                == entries[j]);
        lemma_filter_unique(entries.drop_last(), now);
        let kept = entries.drop_last().filter(live_pred(now));
        if live_pred(now)(entries.last()) {
            assert forall|a: int, b: int|
                0 <= a < b < kept.push(entries.last()).len() implies (#[trigger] kept.push(
                entries.last(),
            )[a]).0 != (#[trigger] kept.push(entries.last())[b]).0 by {
                broadcast use vstd::prelude::Seq::lemma_filter_contains;

                if b == kept.len() {
                    let x = kept[a];
                    lemma_filter_member_of(entries.drop_last(), now, a);
                    let j = choose|j: int|
                        0 <= j < entries.drop_last().len() && entries.drop_last()[j] == kept[a];
                    assert(entries[j].0 != entries.last().0);
                }
            }
        }
    }
}

/// Every filtered slot comes from the original sequence.
proof fn lemma_filter_member_of(entries: Seq<(Seq<char>, CacheEntryView)>, now: u64, k: int)
    requires
        0 <= k < entries.filter(live_pred(now)).len(),
    ensures
        exists|j: int|
            0 <= j < entries.len() && entries[j] == #[trigger] entries.filter(live_pred(now))[k],
    decreases entries.len(),
{
    reveal(Seq::filter);
    if entries.len() > 0 {
        let kept = entries.drop_last().filter(live_pred(now));
        if k < kept.len() {
            lemma_filter_member_of(entries.drop_last(), now, k);
            let j = choose|j: int|
                0 <= j < entries.drop_last().len() && entries.drop_last()[j] == kept[k];
            assert(entries[j] == entries.filter(live_pred(now))[k]);
        } else {
            assert(entries.filter(live_pred(now))[k] == entries.last());
            assert(entries[entries.len() - 1] == entries.last());
        }
    }
}

/// Unsigned multiplication clamped at the integer ceiling.
pub open spec fn sat_mul(a: u64, b: u64) -> u64 {
    if a * b <= u64::MAX {
        (a * b) as u64
    } else {
        u64::MAX
    }
}

/// Multiplies two clock spans, clamping at the integer ceiling.
pub fn mul_sat(a: u64, b: u64) -> (r: u64)
    ensures
        r == sat_mul(a, b),
{
    proof {
        if b != 0 {
            vstd::arithmetic::div_mod::lemma_fundamental_div_mod(u64::MAX as int, b as int);
            vstd::arithmetic::div_mod::lemma_mod_bound(u64::MAX as int, b as int);
            let q = (u64::MAX as int) / (b as int);
            assert(q * b == b as int * q) by (nonlinear_arith);
            if a > q {
                assert((q + 1) * b <= a * b) by (nonlinear_arith)
                    requires
                        q + 1 <= a,
                        b > 0,
                ;
                assert((q + 1) * b == q * b + b) by (nonlinear_arith);
            } else {
                assert(a * b <= q * b) by (nonlinear_arith)
                    requires
                        a <= q,
                        b > 0,
                ;
                assert(q * b <= u64::MAX);
                assert(a * b <= u64::MAX);
            }
        } else {
            assert(a * 0 == 0) by (nonlinear_arith);
            assert(b == 0 ==> a * b == 0) by (nonlinear_arith);
        }
    }
    if b != 0 && a > u64::MAX / b {
        u64::MAX
    } else {
        a * b
    }
}

/// Filtering twice filters once.
proof fn lemma_filter_idempotent(
    entries: Seq<(Seq<char>, CacheEntryView)>,
    now: u64,
)
    ensures
        entries.filter(live_pred(now)).filter(live_pred(now)) == entries.filter(live_pred(now)),
    decreases entries.len(),
{
    reveal(Seq::filter);
    if entries.len() > 0 {
        lemma_filter_idempotent(entries.drop_last(), now);
        let kept = entries.drop_last().filter(live_pred(now));
        if live_pred(now)(entries.last()) {
            assert(entries.filter(live_pred(now)) == kept.push(entries.last()));
            assert(kept.push(entries.last()).drop_last() =~= kept);
        }
    }
}

/// The lifetime a verdict is cached for, in milliseconds: the configured
/// lifetime, doubled for malicious verdicts so that bad actors are not
/// re-checked as often.
pub open spec fn manager_ttl_ms(cache_ttl_secs: u64, malicious: bool) -> u64 {
    sat_mul(cache_ttl_secs, if malicious { 2000 } else { 1000 })
}

/// Owns the verdict cache and applies the screening policy's lifetimes,
/// sweeping out dead entries at most once per cleanup interval.
#[derive(Debug)]
pub struct DnsblCacheManager {
    cache: DnsblCache,
    config: DnsblConfig,
    cleanup_interval_ms: u64,
    last_cleanup: u64,
}

impl DnsblCacheManager {
    /// The stored entries.
    pub closed spec fn entries(&self) -> Seq<(Seq<char>, CacheEntryView)> {
        self.cache.entries()
    }

    /// The counters.
    pub closed spec fn spec_stats(&self) -> CacheStats {
        self.cache.spec_stats()
    }

    /// The configured base lifetime, in seconds.
    pub closed spec fn spec_cache_ttl_secs(&self) -> u64 {
        self.config.cache_ttl_secs
    }

    /// The cache's capacity.
    pub closed spec fn spec_max_entries(&self) -> usize {
        self.cache.spec_max_entries()
    }

    /// Each key is stored at most once.
    pub open spec fn wf(&self) -> bool {
        unique_keys(self.entries())
    }

    /// A manager over an empty cache; `now` seeds the cleanup clock.
    pub fn new(config: DnsblConfig, now: u64) -> (r: Self)
        ensures
            r.wf(),
            r.entries().len() == 0,
            r.spec_cache_ttl_secs() == config.cache_ttl_secs,
            r.spec_stats().hits == 0,
            r.spec_stats().misses == 0,
            r.spec_stats().additions == 0,
            r.spec_stats().evictions == 0,
            r.spec_max_entries() == 10000,
    {
        let ttl_ms = mul_sat(config.cache_ttl_secs, 1000);
        let cache = DnsblCache::with_settings(ttl_ms, 10000);
        DnsblCacheManager { cache, config, cleanup_interval_ms: 300000, last_cleanup: now }
    }

    /// Serves the live verdict stored for the IP, if any; a hit moves only
    /// the hit counter and refreshes the entry's read clock, a miss moves
    /// only the miss counter. Entries dead at `now` are never served, and
    /// what any later read returns is unchanged.
    pub fn get(&mut self, ip: &str, now: u64) -> (r: Option<DnsblCheckResults>)
        requires
            old(self).wf(),
        ensures
            final(self).wf(),
            forall|k: Seq<char>|
                spec_lookup(final(self).entries(), k, now) == #[trigger] spec_lookup(
                    old(self).entries(),
                    k,
                    now,
                ),
            final(self).entries().len() <= old(self).entries().len(),
            r is Some <==> spec_lookup(old(self).entries(), ip@, now) is Some,
            r matches Some(v) ==> Some(v@) == spec_lookup(old(self).entries(), ip@, now),
            final(self).spec_stats().hits == if r is Some {
                sat_add(old(self).spec_stats().hits, 1)
            } else {
                old(self).spec_stats().hits
            },
            final(self).spec_stats().misses == if r is Some {
                old(self).spec_stats().misses
            } else {
                sat_add(old(self).spec_stats().misses, 1)
            },
            final(self).spec_stats().additions == old(self).spec_stats().additions,
            final(self).spec_cache_ttl_secs() == old(self).spec_cache_ttl_secs(),
    {
        let ghost entries0 = self.entries();
        self.maybe_cleanup(now);
        proof {
            if self.entries() != entries0 {
                lemma_filter_unique(entries0, now);
                broadcast use vstd::prelude::Seq::lemma_filter_len;

            }
            assert forall|k: Seq<char>|
                spec_lookup(self.entries(), k, now) == #[trigger] spec_lookup(
                    entries0,
                    k,
                    now,
                ) by {
                lemma_lookup_after_cleanup(entries0, k, now);
            }
            lemma_lookup_after_cleanup(entries0, ip@, now);
        }
        let ghost entries1 = self.entries();
        let r = self.cache.get(ip, now);
        proof {
            broadcast use vstd::prelude::Seq::lemma_filter_len;

            if entries1 != entries0 {
                lemma_filter_idempotent(entries0, now);
            }
        }
        r
    }

    /// Stores a verdict; malicious verdicts stay twice as long.
    pub fn put(&mut self, ip: String, results: DnsblCheckResults, now: u64)
        requires
            old(self).wf(),
        ensures
            final(self).wf(),
            find_entry(final(self).entries(), ip@) == Some(
                CacheEntryView {
                    results: results@,
                    created_at: now,
                    expires_at: sat_add(
                        now,
                        manager_ttl_ms(old(self).spec_cache_ttl_secs(), results.is_malicious),
                    ),
                    last_accessed: now,
                },
            ),
            forall|k: int|
                #![trigger final(self).entries()[k]]
                0 <= k < final(self).entries().len() && final(self).entries()[k].0 != ip@
                    ==> old(self).entries().contains(final(self).entries()[k]),
            final(self).spec_stats().additions == sat_add(old(self).spec_stats().additions, 1),
            final(self).spec_stats().hits == old(self).spec_stats().hits,
            final(self).spec_stats().misses == old(self).spec_stats().misses,
            old(self).entries().len() <= old(self).spec_max_entries() && old(self).spec_max_entries() >= 1 ==> final(self).entries().len() <= old(self).spec_max_entries(),
            final(self).spec_max_entries() == old(self).spec_max_entries(),
            final(self).spec_cache_ttl_secs() == old(self).spec_cache_ttl_secs(),
    {
        let ghost entries0 = self.entries();
        self.maybe_cleanup(now);
        proof {
            if self.entries() != entries0 {
                lemma_filter_unique(entries0, now);
                broadcast use vstd::prelude::Seq::lemma_filter_len;

            }
        }
        let ghost entries1 = self.entries();
        let ttl = if results.is_malicious {
            mul_sat(self.config.cache_ttl_secs, 2000)
        } else {
            mul_sat(self.config.cache_ttl_secs, 1000)
        };
        self.cache.put_with_ttl(ip, results, ttl, now);
        proof {
            assert forall|k: int|
                0 <= k < self.entries().len() && (#[trigger] self.entries()[k]).0 != ip@
                implies entries0.contains(self.entries()[k]) by {
                assert(entries1.contains(self.entries()[k]));
                let j = choose|j: int| 0 <= j < entries1.len() && entries1[j] == self.entries()[k];
                if entries1 != entries0 {
                    lemma_filter_member_of(entries0, now, j);
                }
            }
        }
    }

    /// Sweeps dead entries when the cleanup interval has elapsed since the
    /// last sweep.
    fn maybe_cleanup(&mut self, now: u64)
        requires
            old(self).wf(),
        ensures
            final(self).wf(),
            final(self).entries() == old(self).entries() || final(self).entries() == old(self).entries().filter(live_pred(now)),
            final(self).spec_stats().hits == old(self).spec_stats().hits,
            final(self).spec_stats().misses == old(self).spec_stats().misses,
            final(self).spec_stats().additions == old(self).spec_stats().additions,
            final(self).spec_cache_ttl_secs() == old(self).spec_cache_ttl_secs(),
            final(self).cache_settings_unchanged(*old(self)),
    {
        if now.saturating_sub(self.last_cleanup) >= self.cleanup_interval_ms {
            self.cache.cleanup_expired(now);
            self.last_cleanup = now;
        }
    }

    /// The cache's lifetime and capacity settings are those of `other`.
    pub closed spec fn cache_settings_unchanged(&self, other: Self) -> bool {
        self.cache.spec_default_ttl_ms() == other.cache.spec_default_ttl_ms()
            && self.cache.spec_max_entries() == other.cache.spec_max_entries()
    }

    /// The counters.
    pub fn get_stats(&self) -> (r: &CacheStats)
        ensures
            *r == self.spec_stats(),
    {
        self.cache.get_stats()
    }

    /// Sweeps dead entries now, regardless of the interval.
    pub fn force_cleanup(&mut self, now: u64)
        requires
            old(self).wf(),
        ensures
            final(self).wf(),
            final(self).entries() == old(self).entries().filter(live_pred(now)),
            final(self).spec_stats().hits == old(self).spec_stats().hits,
            final(self).spec_stats().misses == old(self).spec_stats().misses,
            final(self).spec_cache_ttl_secs() == old(self).spec_cache_ttl_secs(),
    {
        self.cache.cleanup_expired(now);
        self.last_cleanup = now;
        proof {
            lemma_filter_unique(old(self).entries(), now);
        }
    }
}


} // verus!
