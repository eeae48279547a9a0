//! Reuse of upstream connections. The pool never touches the network: it
//! manages entries around an opaque stream handle, with the clock passed in,
//! so that acquisition, release and expiry are stated exactly. Opening and
//! liveness-testing sockets happens outside the library.

use vstd::prelude::*;

use crate::strutil::str_eq;

verus! {

/// Limits and lifetimes of the pool; times are in milliseconds.
#[derive(Debug, Clone, Copy)]
pub struct PoolConfig {
    /// Idle connections kept per upstream.
    pub max_connections_per_proxy: usize,
    /// Idle lifetime of a pooled connection.
    pub max_idle_time_ms: u64,
    /// Total connections the pool may hold.
    pub max_total_connections: usize,
    /// Deadline for opening a new connection.
    pub connection_timeout_ms: u64,
    /// How often the expiry sweep runs.
    pub health_check_interval_ms: u64,
}

impl Default for PoolConfig {
    /// Five idle connections per upstream, half a minute of idle lifetime,
    /// a thousand connections in all, five seconds to connect, sweeps every
    /// minute.
    fn default() -> (r: Self)
        ensures
            r.max_connections_per_proxy == 5,
            r.max_idle_time_ms == 30000,
            r.max_total_connections == 1000,
            r.connection_timeout_ms == 5000,
            r.health_check_interval_ms == 60000,
    {
        PoolConfig {
            max_connections_per_proxy: 5,
            max_idle_time_ms: 30000,
            max_total_connections: 1000,
            connection_timeout_ms: 5000,
            health_check_interval_ms: 60000,
        }
    }
}

/// A pooled connection around an opaque stream handle.
#[derive(Debug)]
pub struct PooledConnection<T> {
    /// The stream handle.
    pub stream: T,
    /// Clock reading when the connection was created.
    pub created_at: u64,
    /// Clock reading when the connection was last used.
    pub last_used: u64,
    /// How often it has been handed out.
    pub use_count: u64,
    /// Whether it is currently handed out.
    pub in_use: bool,
    /// Whether it is believed usable.
    pub healthy: bool,
}

/// An entry is expired when it has sat idle longer than the idle lifetime.
pub open spec fn spec_expired<T>(c: PooledConnection<T>, max_idle_ms: u64, now: u64) -> bool {
    now > c.last_used + max_idle_ms
}

/// An entry may be handed out when it is usable and not already out.
pub open spec fn spec_available<T>(c: PooledConnection<T>) -> bool {
    c.healthy && !c.in_use
}

/// The reuse preference of an idle entry: seconds since last use, minus the
/// times it was handed out — older-but-fresher wins over hot-spun.
pub open spec fn spec_score<T>(c: PooledConnection<T>, now: u64) -> int {
    (if now > c.last_used {
        ((now - c.last_used) / 1000) as int
    } else {
        0
    }) - c.use_count
}

impl<T> PooledConnection<T> {
    /// A fresh entry: just created, never used, usable, not handed out.
    pub fn new(stream: T, now: u64) -> (r: Self)
        ensures
            r.created_at == now,
            r.last_used == now,
            r.use_count == 0,
            !r.in_use,
            r.healthy,
    {
        PooledConnection {
            stream,
            created_at: now,
            last_used: now,
            use_count: 0,
            in_use: false,
            healthy: true,
        }
    }

    /// Whether the entry has sat idle past its lifetime.
    pub fn is_expired(&self, max_idle_ms: u64, now: u64) -> (r: bool)
        ensures
            r == spec_expired(*self, max_idle_ms, now),
    {
        now.saturating_sub(self.last_used) > max_idle_ms
    }

    /// Whether the entry may be handed out.
    pub fn is_healthy(&self) -> (r: bool)
        ensures
            r == spec_available(*self),
    {
        self.healthy && !self.in_use
    }

    /// Notes a hand-out at `now`.
    pub fn mark_used(&mut self, now: u64)
        ensures
            final(self).last_used == now,
            final(self).use_count == if old(self).use_count < u64::MAX {
                old(self).use_count + 1
            } else {
                u64::MAX as int
            },
            final(self).stream == old(self).stream,
            final(self).created_at == old(self).created_at,
            final(self).in_use == old(self).in_use,
            final(self).healthy == old(self).healthy,
    {
        self.last_used = now;
        self.use_count = self.use_count.saturating_add(1);
    }
}

/// Statistics of one upstream's pool.
#[derive(Debug, Clone, Copy)]
pub struct PoolStats {
    /// Connections ever created for this upstream.
    pub total_connections: usize,
    /// Entries currently held.
    pub available_connections: usize,
    /// Held entries marked as handed out.
    pub active_connections: usize,
    /// Held entries older than the standard idle lifetime.
    pub expired_connections: usize,
}

/// Keeps the entries marked in use.
pub open spec fn in_use_pred<T>() -> spec_fn(PooledConnection<T>) -> bool {
    |c: PooledConnection<T>| c.in_use
}

/// Keeps the entries expired against the standard half-minute lifetime.
pub open spec fn expired30_pred<T>(now: u64) -> spec_fn(PooledConnection<T>) -> bool {
    |c: PooledConnection<T>| spec_expired(c, 30000, now)
}

/// Keeps the entries worth retaining: usable, not handed out, not expired.
pub open spec fn keep_pred<T>(max_idle_ms: u64, now: u64) -> spec_fn(PooledConnection<T>) -> bool {
    |c: PooledConnection<T>| !spec_expired(c, max_idle_ms, now) && spec_available(c)
}

/// The reuse preference, computed wide enough that it cannot wrap.
fn score_of<T>(c: &PooledConnection<T>, now: u64) -> (r: i128)
    ensures
        r == spec_score(*c, now),
{
    let idle: u64 = now.saturating_sub(c.last_used) / 1000;
    idle as i128 - c.use_count as i128
}

/// The idle connections kept for one upstream.
#[derive(Debug)]
pub struct ProxyConnectionPool<T> {
    /// The held entries.
    pub connections: Vec<PooledConnection<T>>,
    /// Connections ever created for this upstream.
    pub total_connections: usize,
    /// The upstream's address.
    pub proxy_addr: String,
}

impl<T> ProxyConnectionPool<T> {
    /// An empty pool for the upstream.
    pub fn new(proxy_addr: String) -> (r: Self)
        ensures
            r.connections@.len() == 0,
            r.total_connections == 0,
            r.proxy_addr@ == proxy_addr@,
    {
        ProxyConnectionPool { connections: Vec::new(), total_connections: 0, proxy_addr }
    }

    /// Hands out the best available entry, if any: among the usable,
    /// unexpired entries, one of maximal reuse preference leaves the pool,
    /// marked in use and freshly used at `now`.
    pub fn get_connection(&mut self, max_idle_ms: u64, now: u64) -> (r: Option<
        PooledConnection<T>,
    >)
        ensures
            final(self).total_connections == old(self).total_connections,
            final(self).proxy_addr == old(self).proxy_addr,
            r is None ==> final(self).connections == old(self).connections && (forall|j: int|
                0 <= j < old(self).connections@.len() ==> !(spec_available(
                    #[trigger] old(self).connections@[j],
                ) && !spec_expired(old(self).connections@[j], max_idle_ms, now))),
            r matches Some(c) ==> exists|i: int|
                {
                    &&& 0 <= i < old(self).connections@.len()
                    &&& spec_available(#[trigger] old(self).connections@[i])
                    &&& !spec_expired(old(self).connections@[i], max_idle_ms, now)
                    &&& c.stream == old(self).connections@[i].stream
                    &&& c.created_at == old(self).connections@[i].created_at
                    &&& c.use_count == (if old(self).connections@[i].use_count < u64::MAX {
                        old(self).connections@[i].use_count + 1
                    } else {
                        u64::MAX as int
                    })
                    &&& c.in_use
                    &&& c.healthy == old(self).connections@[i].healthy
                    &&& c.last_used == now
                    &&& (forall|j: int|
                        0 <= j < old(self).connections@.len() && spec_available(
                            #[trigger] old(self).connections@[j],
                        ) && !spec_expired(old(self).connections@[j], max_idle_ms, now)
                            ==> spec_score(old(self).connections@[j], now) <= spec_score(
                            old(self).connections@[i],
                            now,
                        ))
                    &&& final(self).connections@ == old(self).connections@.remove(i)
                },
    {
        let n = self.connections.len();
        let mut best: Option<usize> = None;
        let mut k: usize = 0;
        while k < n
            invariant
                n == self.connections@.len(),
                0 <= k <= n,
                match best {
                    Some(b) => {
                        &&& b < k
                        &&& spec_available(self.connections@[b as int])
                        &&& !spec_expired(self.connections@[b as int], max_idle_ms, now)
                        &&& forall|j: int|
                            0 <= j < k && spec_available(#[trigger] self.connections@[j])
                                && !spec_expired(self.connections@[j], max_idle_ms, now)
                                ==> spec_score(self.connections@[j], now) <= spec_score(
                                self.connections@[b as int],
                                now,
                            )
                    },
                    None => forall|j: int|
                        0 <= j < k ==> !(spec_available(#[trigger] self.connections@[j])
                            && !spec_expired(self.connections@[j], max_idle_ms, now)),
                },
            decreases n - k,
        {
            let eligible = self.connections[k].is_healthy() && !self.connections[k].is_expired(
                max_idle_ms,
                now,
            );
            if eligible {
                let score_k = score_of(&self.connections[k], now);
                let better = match best {
                    Some(b) => score_k > score_of(&self.connections[b], now),
                    None => true,
                };
                if better {
                    best = Some(k);
                }
            }
            k = k + 1;
        }
        match best {
            Some(b) => {
                let mut conn = self.connections.remove(b);
                conn.mark_used(now);
                conn.in_use = true;
                Some(conn)
            },
            None => None,
        }
    }

    /// Takes a connection back: marked idle, freshly used at `now`.
    pub fn return_connection(&mut self, conn: PooledConnection<T>, now: u64)
        ensures
            final(self).connections@.len() == old(self).connections@.len() + 1,
            final(self).connections@.last().stream == conn.stream,
            !final(self).connections@.last().in_use,
            final(self).connections@.last().last_used == now,
            forall|j: int|
                0 <= j < old(self).connections@.len() ==> final(self).connections@[j] == old(self).connections@[j],
            final(self).total_connections == old(self).total_connections,
            final(self).proxy_addr == old(self).proxy_addr,
    {
        let mut conn = conn;
        conn.in_use = false;
        conn.last_used = now;
        self.connections.push(conn);
    }

    /// Drops expired and unusable entries; says how many were dropped.
    pub fn cleanup_expired(&mut self, max_idle_ms: u64, now: u64) -> (r: usize)
        ensures
            final(self).connections@ == old(self).connections@.filter(
                keep_pred(max_idle_ms, now),
            ),
            r == old(self).connections@.len() - final(self).connections@.len(),
            final(self).total_connections == old(self).total_connections,
            final(self).proxy_addr == old(self).proxy_addr,
    {
        broadcast use vstd::prelude::Seq::filter_distributes_over_add;
        broadcast use vstd::prelude::Seq::lemma_filter_len;

        let ghost orig = self.connections@;
        let n = self.connections.len();
        let mut i: usize = n;
        while i > 0
            invariant
                n == orig.len(),
                0 <= i <= n,
                self.connections@ == orig.take(i as int) + orig.skip(i as int).filter(
                    keep_pred(max_idle_ms, now),
                ),
                self.connections@.len() >= i,
                self.total_connections == old(self).total_connections,
                self.proxy_addr == old(self).proxy_addr,
            decreases i,
        {
            let ghost before = self.connections@;
            let keep = !self.connections[i - 1].is_expired(max_idle_ms, now)
                && self.connections[i - 1].is_healthy();
            proof {
                assert(before[i - 1] == orig[i - 1]);
                assert(orig.skip(i - 1) =~= seq![orig[i - 1]] + orig.skip(i as int));
                reveal_with_fuel(Seq::filter, 3);
                assert(seq![orig[i - 1]].drop_last() =~= Seq::<PooledConnection<T>>::empty());
                assert(seq![orig[i - 1]].filter(keep_pred(max_idle_ms, now)) == if keep_pred(
                    max_idle_ms,
                    now,
                )(orig[i - 1]) {
                    seq![orig[i - 1]]
                } else {
                    Seq::<PooledConnection<T>>::empty()
                });
            }
            if !keep {
                self.connections.remove(i - 1);
                proof {
                    assert(self.connections@ =~= orig.take(i - 1) + orig.skip(i - 1).filter(
                        keep_pred(max_idle_ms, now),
                    ));
                }
            } else {
                proof {
                    assert(self.connections@ =~= orig.take(i - 1) + orig.skip(i - 1).filter(
                        keep_pred(max_idle_ms, now),
                    ));
                }
            }
            i = i - 1;
        }
        proof {
            assert(orig.take(0) =~= Seq::<PooledConnection<T>>::empty());
            assert(orig.skip(0) =~= orig);
            assert(self.connections@ =~= orig.filter(keep_pred(max_idle_ms, now)));
        }
        n - self.connections.len()
    }

    /// This upstream's statistics: totals and how many held entries are
    /// handed out or past the standard idle lifetime.
    pub fn get_stats(&self, now: u64) -> (r: PoolStats)
        ensures
            r.total_connections == self.total_connections,
            r.available_connections == self.connections@.len(),
            r.active_connections == self.connections@.filter(in_use_pred()).len(),
            r.expired_connections == self.connections@.filter(expired30_pred(now)).len(),
    {
        let n = self.connections.len();
        let mut active: usize = 0;
        let mut expired: usize = 0;
        let mut i: usize = 0;
        while i < n
            invariant
                n == self.connections@.len(),
                0 <= i <= n,
                active == self.connections@.take(i as int).filter(in_use_pred()).len(),
                expired == self.connections@.take(i as int).filter(expired30_pred(now)).len(),
                active <= i,
                expired <= i,
            decreases n - i,
        {
            proof {
                reveal(Seq::filter);
                let cs = self.connections@;
                assert(cs.take(i + 1).drop_last() =~= cs.take(i as int));
                assert(cs.take(i + 1).last() == cs[i as int]);
            }
            if self.connections[i].in_use {
                active = active + 1;
            }
            if self.connections[i].is_expired(30000, now) {
                expired = expired + 1;
            }
            i = i + 1;
        }
        proof {
            assert(self.connections@.take(n as int) =~= self.connections@);
        }
        PoolStats {
            total_connections: self.total_connections,
            available_connections: self.connections.len(),
            active_connections: active,
            expired_connections: expired,
        }
    }
}

/// Global counters of the pool's behaviour.
#[derive(Debug, Clone, Copy)]
pub struct PoolGlobalStats {
    /// Upstreams with a pool.
    pub total_pools: usize,
    /// Connections ever created.
    pub total_connections: usize,
    /// Held entries marked as handed out, summed over upstreams.
    pub active_connections: usize,
    /// Acquisitions answered from the pool.
    pub cache_hits: u64,
    /// Acquisitions the pool could not answer.
    pub cache_misses: u64,
    /// New connections opened.
    pub connections_created: u64,
    /// Pooled connections handed out again.
    pub connections_reused: u64,
}

impl Default for PoolGlobalStats {
    /// All counters start at zero.
    fn default() -> (r: Self)
        ensures
            r.total_pools == 0 && r.total_connections == 0 && r.active_connections == 0
                && r.cache_hits == 0 && r.cache_misses == 0 && r.connections_created == 0
                && r.connections_reused == 0,
    {
        PoolGlobalStats {
            total_pools: 0,
            total_connections: 0,
            active_connections: 0,
            cache_hits: 0,
            cache_misses: 0,
            connections_created: 0,
            connections_reused: 0,
        }
    }
}

/// The idle entries of the first pool with the given address, empty when no
/// pool exists for it.
pub open spec fn find_idle<T>(
    ps: Seq<(Seq<char>, Seq<PooledConnection<T>>)>,
    addr: Seq<char>,
) -> Seq<PooledConnection<T>>
    decreases ps.len(),
{
    if ps.len() == 0 {
        Seq::empty()
    } else if ps[0].0 == addr {
        ps[0].1
    } else {
        find_idle(ps.drop_first(), addr)
    }
}

/// The handed-out entries over all pools, clamped at the pointer width's
/// ceiling.
pub open spec fn spec_total_active<T>(ps: Seq<(Seq<char>, Seq<PooledConnection<T>>)>) -> int
    decreases ps.len(),
{
    if ps.len() == 0 {
        0
    } else {
        let rest = spec_total_active(ps.drop_last());
        let here = ps.last().1.filter(in_use_pred()).len();
        if rest + here <= usize::MAX {
            rest + here
        } else {
            usize::MAX as int
        }
    }
}

/// Unsigned addition clamped at the integer ceiling.
pub open spec fn sat_add64(a: u64, b: u64) -> u64 {
    if a + b <= u64::MAX {
        (a + b) as u64
    } else {
        u64::MAX
    }
}

/// A well-formed pool table: each address at most once, and every idle set
/// within the per-upstream capacity. The capacity bound is the released
/// half of the pooling discipline: however the pool is driven, no
/// upstream's idle set grows past `max_connections_per_proxy`.
pub open spec fn pools_wf<T>(
    ps: Seq<(Seq<char>, Seq<PooledConnection<T>>)>,
    cap: usize,
) -> bool {
    &&& (forall|i: int, j: int|
        0 <= i < j < ps.len() ==> (#[trigger] ps[i]).0 != (#[trigger] ps[j]).0)
    &&& (forall|k: int| 0 <= k < ps.len() ==> (#[trigger] ps[k]).1.len() <= cap)
}

/// Pools of idle upstream connections, one per upstream address.
#[derive(Debug)]
pub struct ConnectionPool<T> {
    proxy_pools: Vec<(String, ProxyConnectionPool<T>)>,
    config: PoolConfig,
    last_cleanup: u64,
    stats: PoolGlobalStats,
}

impl<T> ConnectionPool<T> {
    /// The pools as address/idle-entries pairs.
    pub closed spec fn pool_entries(&self) -> Seq<(Seq<char>, Seq<PooledConnection<T>>)> {
        Seq::new(
            self.proxy_pools@.len(),
            |i: int| (self.proxy_pools@[i].0@, self.proxy_pools@[i].1.connections@),
        )
    }

    /// The counters.
    pub closed spec fn spec_stats(&self) -> PoolGlobalStats {
        self.stats
    }

    /// The configured limits.
    pub closed spec fn spec_config(&self) -> PoolConfig {
        self.config
    }

    /// Each upstream has at most one pool, and no upstream's idle set
    /// exceeds the per-upstream capacity.
    pub open spec fn wf(&self) -> bool {
        pools_wf(self.pool_entries(), self.spec_config().max_connections_per_proxy)
    }

    /// An empty pool under the given limits; `now` seeds the sweep clock.
    pub fn new(config: PoolConfig, now: u64) -> (r: Self)
        ensures
            r.wf(),
            r.pool_entries().len() == 0,
            r.spec_config() == config,
            r.spec_stats().cache_hits == 0 && r.spec_stats().cache_misses == 0
                && r.spec_stats().connections_created == 0 && r.spec_stats().connections_reused
                == 0,
            r.spec_stats().total_connections == 0,
            r.spec_stats().active_connections == 0,
            r.spec_stats().total_pools == 0,
    {
        let r = ConnectionPool {
            proxy_pools: Vec::new(),
            config,
            last_cleanup: now,
            stats: PoolGlobalStats::default(),
        };
        proof {
            assert(r.pool_entries() =~= Seq::<(Seq<char>, Seq<PooledConnection<T>>)>::empty());
        }
        r
    }

    /// Index of the upstream's pool, if one exists.
    fn find_pool_index(&self, proxy_addr: &str) -> (r: Option<usize>)
        ensures
            match r {
                Some(i) => i < self.pool_entries().len() && self.pool_entries()[i as int].0
                    == proxy_addr@ && find_idle(self.pool_entries(), proxy_addr@)
                    == self.pool_entries()[i as int].1,
                None => forall|j: int|
                    0 <= j < self.pool_entries().len() ==> (#[trigger] self.pool_entries()[j]).0
                        != proxy_addr@,
            },
    {
        let n = self.proxy_pools.len();
        let mut i: usize = 0;
        while i < n
            invariant
                n == self.proxy_pools@.len(),
                0 <= i <= n,
                forall|j: int| 0 <= j < i ==> (#[trigger] self.pool_entries()[j]).0 != proxy_addr@,
            decreases n - i,
        {
            if str_eq(self.proxy_pools[i].0.as_str(), proxy_addr) {
                proof {
                    lemma_find_idle_prefix_miss(self.pool_entries(), proxy_addr@, i as int);
                    assert(self.pool_entries().skip(i as int)[0] == self.pool_entries()[i as int]);
                }
                return Some(i);
            }
            i = i + 1;
        }
        None
    }

    /// Tries to hand out a pooled connection to the upstream. On a hit an
    /// available, unexpired entry of maximal reuse preference leaves the
    /// idle set, marked in use and freshly used at `now`, and exactly the
    /// hit and reuse counters move. A miss changes nothing, happens only
    /// when no available, unexpired entry exists for the upstream, and the
    /// caller then opens a new connection and accounts it with
    /// `note_created`.
    pub fn acquire(&mut self, proxy_addr: &str, now: u64) -> (r: Option<PooledConnection<T>>)
        requires
            old(self).wf(),
        ensures
            final(self).wf(),
            final(self).spec_config() == old(self).spec_config(),
            r matches Some(c) ==> {
                &&& c.in_use
                &&& c.last_used == now
                &&& exists|i: int|
                    #![trigger find_idle(old(self).pool_entries(), proxy_addr@)[i]]
                    {
                        &&& 0 <= i < find_idle(old(self).pool_entries(), proxy_addr@).len()
                        &&& spec_available(find_idle(old(self).pool_entries(), proxy_addr@)[i])
                        &&& !spec_expired(
                            find_idle(old(self).pool_entries(), proxy_addr@)[i],
                            old(self).spec_config().max_idle_time_ms,
                            now,
                        )
                        &&& c.stream == find_idle(old(self).pool_entries(), proxy_addr@)[i].stream
                        &&& c.created_at == find_idle(
                            old(self).pool_entries(),
                            proxy_addr@,
                        )[i].created_at
                        &&& c.use_count == (if find_idle(
                            old(self).pool_entries(),
                            proxy_addr@,
                        )[i].use_count < u64::MAX {
                            find_idle(old(self).pool_entries(), proxy_addr@)[i].use_count + 1
                        } else {
                            u64::MAX as int
                        })
                        &&& (forall|j: int|
                            0 <= j < find_idle(old(self).pool_entries(), proxy_addr@).len()
                                && spec_available(
                                #[trigger] find_idle(old(self).pool_entries(), proxy_addr@)[j],
                            ) && !spec_expired(
                                find_idle(old(self).pool_entries(), proxy_addr@)[j],
                                old(self).spec_config().max_idle_time_ms,
                                now,
                            ) ==> spec_score(
                                find_idle(old(self).pool_entries(), proxy_addr@)[j],
                                now,
                            ) <= spec_score(
                                find_idle(old(self).pool_entries(), proxy_addr@)[i],
                                now,
                            ))
                        &&& find_idle(final(self).pool_entries(), proxy_addr@) == find_idle(
                            old(self).pool_entries(),
                            proxy_addr@,
                        ).remove(i)
                    }
                &&& final(self).spec_stats().cache_hits == sat_add64(
                    old(self).spec_stats().cache_hits,
                    1,
                )
                &&& final(self).spec_stats().connections_reused == sat_add64(
                    old(self).spec_stats().connections_reused,
                    1,
                )
                &&& final(self).spec_stats().cache_misses == old(self).spec_stats().cache_misses
                &&& final(self).spec_stats().connections_created == old(self).spec_stats().connections_created
            },
            r is None ==> final(self).pool_entries() == old(self).pool_entries() && final(self).spec_stats() == old(self).spec_stats() && (forall|j: int|
                0 <= j < find_idle(old(self).pool_entries(), proxy_addr@).len() ==> !(
                spec_available(#[trigger] find_idle(old(self).pool_entries(), proxy_addr@)[j])
                    && !spec_expired(
                    find_idle(old(self).pool_entries(), proxy_addr@)[j],
                    old(self).spec_config().max_idle_time_ms,
                    now,
                ))),
            forall|a: Seq<char>|
                a != proxy_addr@ ==> #[trigger] find_idle(final(self).pool_entries(), a)
                    == find_idle(old(self).pool_entries(), a),
    {
        let found = self.find_pool_index(proxy_addr);
        match found {
            Some(i) => {
                let ghost entries0 = self.pool_entries();
                let max_idle = self.config.max_idle_time_ms;
                let (key, mut pool) = self.proxy_pools.remove(i);
                let ghost idle0 = pool.connections@;
                let got = pool.get_connection(max_idle, now);
                self.proxy_pools.insert(i, (key, pool));
                proof {
                    assert forall|k: int|
                        0 <= k < entries0.len() implies (#[trigger] self.pool_entries()[k]).0
                        == entries0[k].0 && (k != i ==> self.pool_entries()[k]
                        == entries0[k]) by {
                        if k < i {
                            assert(self.proxy_pools@[k] == old(self).proxy_pools@[k]);
                        } else if k > i {
                            assert(self.proxy_pools@[k] == old(self).proxy_pools@[k]);
                        }
                    }
                    assert(self.pool_entries().len() == entries0.len());
                    assert forall|a: int, b: int|
                        0 <= a < b < self.pool_entries().len() implies (
                    #[trigger] self.pool_entries()[a]).0 != (#[trigger] self.pool_entries()[b]).0
                        by {
                        assert(entries0[a].0 != entries0[b].0);
                    }
                    assert forall|k: int|
                        0 <= k < self.pool_entries().len() implies (
                    #[trigger] self.pool_entries()[k]).1.len()
                        <= self.spec_config().max_connections_per_proxy by {
                        if k != i {
                            assert(self.pool_entries()[k] == entries0[k]);
                        } else {
                            assert(entries0[i as int].1 == idle0);
                        }
                    }
                    lemma_find_idle_unchanged_except(entries0, self.pool_entries(), i as int);
                    lemma_find_idle_at(self.pool_entries(), i as int);
                    lemma_find_idle_at(entries0, i as int);
                    assert(find_idle(entries0, proxy_addr@) == idle0);
                }
                match got {
                    Some(conn) => {
                        self.stats.cache_hits = self.stats.cache_hits.saturating_add(1);
                        self.stats.connections_reused =
                            self.stats.connections_reused.saturating_add(1);
                        Some(conn)
                    },
                    None => {
                        proof {
                            assert(self.pool_entries() =~= entries0);
                        }
                        None
                    },
                }
            },
            None => {
                proof {
                    lemma_find_idle_absent(self.pool_entries(), proxy_addr@);
                }
                None
            },
        }
    }

    /// Accounts a freshly opened connection: exactly the miss, created and
    /// total counters move.
    pub fn note_created(&mut self)
        ensures
            final(self).wf() == old(self).wf(),
            final(self).pool_entries() == old(self).pool_entries(),
            final(self).spec_config() == old(self).spec_config(),
            final(self).spec_stats().cache_misses == sat_add64(
                old(self).spec_stats().cache_misses,
                1,
            ),
            final(self).spec_stats().connections_created == sat_add64(
                old(self).spec_stats().connections_created,
                1,
            ),
            final(self).spec_stats().cache_hits == old(self).spec_stats().cache_hits,
            final(self).spec_stats().connections_reused == old(self).spec_stats().connections_reused,
            final(self).spec_stats().total_connections == (if old(
                self,
            ).spec_stats().total_connections < usize::MAX {
                old(self).spec_stats().total_connections + 1
            } else {
                usize::MAX as int
            }),
    {
        self.stats.cache_misses = self.stats.cache_misses.saturating_add(1);
        self.stats.connections_created = self.stats.connections_created.saturating_add(1);
        self.stats.total_connections = if self.stats.total_connections < usize::MAX {
            self.stats.total_connections + 1
        } else {
            usize::MAX
        };
        proof {
            assert(self.pool_entries() =~= old(self).pool_entries());
            if old(self).wf() {
                assert forall|a: int, b: int|
                    0 <= a < b < self.pool_entries().len() implies (
                #[trigger] self.pool_entries()[a]).0 != (#[trigger] self.pool_entries()[b]).0 by {
                    assert(self.pool_entries()[a] == old(self).pool_entries()[a]);
                    assert(self.pool_entries()[b] == old(self).pool_entries()[b]);
                }
            }
            if self.wf() {
                assert forall|a: int, b: int|
                    0 <= a < b < old(self).pool_entries().len() implies (
                #[trigger] old(self).pool_entries()[a]).0 != (#[trigger] old(self).pool_entries()[b]).0 by {
                    assert(self.pool_entries()[a] == old(self).pool_entries()[a]);
                    assert(self.pool_entries()[b] == old(self).pool_entries()[b]);
                }
            }
        }
    }

    /// Returns a connection to the upstream's pool. The entry is kept only
    /// while the upstream's idle set is below its capacity, so the idle set
    /// never grows past `max_connections_per_proxy`.
    pub fn return_connection(&mut self, proxy_addr: &str, stream: T, now: u64)
        requires
            old(self).wf(),
        ensures
            final(self).wf(),
            final(self).spec_config() == old(self).spec_config(),
            final(self).spec_stats() == old(self).spec_stats(),
            find_idle(final(self).pool_entries(), proxy_addr@).len() == if find_idle(
                old(self).pool_entries(),
                proxy_addr@,
            ).len() < old(self).spec_config().max_connections_per_proxy {
                find_idle(old(self).pool_entries(), proxy_addr@).len() + 1
            } else {
                find_idle(old(self).pool_entries(), proxy_addr@).len()
            },
            find_idle(old(self).pool_entries(), proxy_addr@).len() <= old(self).spec_config().max_connections_per_proxy ==> find_idle(
                final(self).pool_entries(),
                proxy_addr@,
            ).len() <= old(self).spec_config().max_connections_per_proxy,
            forall|a: Seq<char>|
                a != proxy_addr@ ==> #[trigger] find_idle(final(self).pool_entries(), a)
                    == find_idle(old(self).pool_entries(), a),
    {
        let found = self.find_pool_index(proxy_addr);
        match found {
            Some(i) => {
                let ghost entries0 = self.pool_entries();
                proof {
                    lemma_find_idle_at(entries0, i as int);
                }
                let cap = self.config.max_connections_per_proxy;
                let (key, mut pool) = self.proxy_pools.remove(i);
                if pool.connections.len() < cap {
                    let conn = PooledConnection::new(stream, now);
                    pool.return_connection(conn, now);
                }
                self.proxy_pools.insert(i, (key, pool));
                proof {
                    assert forall|k: int|
                        0 <= k < entries0.len() implies (#[trigger] self.pool_entries()[k]).0
                        == entries0[k].0 && (k != i ==> self.pool_entries()[k]
                        == entries0[k]) by {
                        if k < i {
                            assert(self.proxy_pools@[k] == old(self).proxy_pools@[k]);
                        } else if k > i {
                            assert(self.proxy_pools@[k] == old(self).proxy_pools@[k]);
                        }
                    }
                    assert(self.pool_entries().len() == entries0.len());
                    assert forall|a: int, b: int|
                        0 <= a < b < self.pool_entries().len() implies (
                    #[trigger] self.pool_entries()[a]).0 != (#[trigger] self.pool_entries()[b]).0
                        by {
                        assert(entries0[a].0 != entries0[b].0);
                    }
                    lemma_find_idle_unchanged_except(entries0, self.pool_entries(), i as int);
                    lemma_find_idle_at(self.pool_entries(), i as int);
                }
            },
            None => {
                let ghost entries0 = self.pool_entries();
                proof {
                    lemma_find_idle_absent(entries0, proxy_addr@);
                }
                let mut pool = ProxyConnectionPool::new(proxy_addr_to_string(proxy_addr));
                if self.config.max_connections_per_proxy > 0 {
                    let conn = PooledConnection::new(stream, now);
                    pool.return_connection(conn, now);
                }
                self.proxy_pools.push((proxy_addr_to_string(proxy_addr), pool));
                proof {
                    assert(self.pool_entries() =~= entries0.push(
                        (
                            proxy_addr@,
                            self.pool_entries()[self.pool_entries().len() - 1].1,
                        ),
                    ));
                    lemma_find_idle_key_pushed(entries0, proxy_addr@, self.pool_entries());
                    assert forall|a: int, b: int|
                        0 <= a < b < self.pool_entries().len() implies (
                    #[trigger] self.pool_entries()[a]).0 != (#[trigger] self.pool_entries()[b]).0
                        by {
                        if b < entries0.len() {
                            assert(self.pool_entries()[a] == entries0[a]);
                            assert(self.pool_entries()[b] == entries0[b]);
                        } else {
                            assert(self.pool_entries()[a] == entries0[a]);
                            assert(self.pool_entries()[b].0 == proxy_addr@);
                        }
                    }
                }
            },
        }
    }

    /// Drops expired and unusable entries from every upstream's pool.
    pub fn cleanup_expired(&mut self, now: u64)
        requires
            old(self).wf(),
        ensures
            final(self).wf(),
            final(self).spec_config() == old(self).spec_config(),
            final(self).spec_stats() == old(self).spec_stats(),
            final(self).pool_entries().len() == old(self).pool_entries().len(),
            forall|k: int|
                0 <= k < final(self).pool_entries().len() ==> (#[trigger] final(self).pool_entries()[k]).0 == old(self).pool_entries()[k].0 && final(self).pool_entries()[k].1 == old(self).pool_entries()[k].1.filter(
                    keep_pred(old(self).spec_config().max_idle_time_ms, now),
                ),
    {
        let n = self.proxy_pools.len();
        let max_idle = self.config.max_idle_time_ms;
        let mut i: usize = 0;
        while i < n
            invariant
                n == self.proxy_pools@.len(),
                0 <= i <= n,
                self.config == old(self).spec_config(),
                self.stats == old(self).spec_stats(),
                self.pool_entries().len() == old(self).pool_entries().len(),
                max_idle == old(self).spec_config().max_idle_time_ms,
                forall|k: int|
                    0 <= k < n ==> (#[trigger] self.pool_entries()[k]).0 == old(self).pool_entries()[k].0,
                forall|k: int|
                    0 <= k < i ==> (#[trigger] self.pool_entries()[k]).1 == old(self).pool_entries()[k].1.filter(keep_pred(max_idle, now)),
                forall|k: int|
                    i <= k < n ==> (#[trigger] self.pool_entries()[k]).1 == old(self).pool_entries()[k].1,
            decreases n - i,
        {
            let ghost entries_before = self.pool_entries();
            let ghost pools_before = self.proxy_pools@;
            let (key, mut pool) = self.proxy_pools.remove(i);
            pool.cleanup_expired(max_idle, now);
            self.proxy_pools.insert(i, (key, pool));
            proof {
                assert forall|k: int|
                    0 <= k < entries_before.len() implies (#[trigger] self.pool_entries()[k]).0
                    == entries_before[k].0 && (k != i ==> self.pool_entries()[k]
                    == entries_before[k]) by {
                    if k < i {
                        assert(self.proxy_pools@[k] == pools_before[k]);
                    } else if k > i {
                        assert(self.proxy_pools@[k] == pools_before.remove(i as int)[k - 1]);
                        assert(pools_before.remove(i as int)[k - 1] == pools_before[k]);
                    }
                }
            }
            i = i + 1;
        }
        proof {
            assert forall|a: int, b: int|
                0 <= a < b < self.pool_entries().len() implies (
            #[trigger] self.pool_entries()[a]).0 != (#[trigger] self.pool_entries()[b]).0 by {
                assert(old(self).pool_entries()[a].0 != old(self).pool_entries()[b].0);
            }
        }
    }

    /// Runs the expiry sweep when the sweep interval has elapsed.
    pub fn maybe_cleanup(&mut self, now: u64)
        requires
            old(self).wf(),
        ensures
            final(self).wf(),
            final(self).spec_config() == old(self).spec_config(),
            final(self).spec_stats() == old(self).spec_stats(),
    {
        if now.saturating_sub(self.last_cleanup) >= self.config.health_check_interval_ms {
            self.cleanup_expired(now);
            self.last_cleanup = now;
        }
    }

    /// Statistics of one upstream's pool, if it has one.
    pub fn get_proxy_stats(&self, proxy_addr: &str, now: u64) -> (r: Option<PoolStats>)
        ensures
            r is Some <==> exists|j: int|
                0 <= j < self.pool_entries().len() && (#[trigger] self.pool_entries()[j]).0
                    == proxy_addr@,
    {
        match self.find_pool_index(proxy_addr) {
            Some(i) => {
                proof {
                    assert((self.pool_entries()[i as int]).0 == proxy_addr@);
                }
                Some(self.proxy_pools[i].1.get_stats(now))
            },
            None => {
                proof {
                    if exists|j: int|
                        0 <= j < self.pool_entries().len() && (#[trigger] self.pool_entries()[j]).0
                            == proxy_addr@ {
                        let j = choose|j: int|
                            0 <= j < self.pool_entries().len() && (
                            #[trigger] self.pool_entries()[j]).0 == proxy_addr@;
                    }
                }
                None
            },
        }
    }

    /// The global counters, with the pool count and the held and handed-out
    /// entries summed over the upstream pools.
    pub fn get_global_stats(&self) -> (r: PoolGlobalStats)
        ensures
            r.total_pools == self.pool_entries().len(),
            r.total_connections == self.spec_stats().total_connections,
            r.active_connections == spec_total_active(self.pool_entries()),
            r.cache_hits == self.spec_stats().cache_hits,
            r.cache_misses == self.spec_stats().cache_misses,
            r.connections_created == self.spec_stats().connections_created,
            r.connections_reused == self.spec_stats().connections_reused,
    {
        let n = self.proxy_pools.len();
        let mut active: usize = 0;
        let mut i: usize = 0;
        while i < n
            invariant
                n == self.proxy_pools@.len(),
                0 <= i <= n,
                active == spec_total_active(self.pool_entries().take(i as int)),
            decreases n - i,
        {
            let mut k: usize = 0;
            let pool = &self.proxy_pools[i].1;
            let m = pool.connections.len();
            let mut here: usize = 0;
            while k < m
                invariant
                    m == pool.connections@.len(),
                    0 <= k <= m,
                    here == pool.connections@.take(k as int).filter(in_use_pred()).len(),
                    here <= k,
                decreases m - k,
            {
                proof {
                    reveal(Seq::filter);
                    let cs = pool.connections@;
                    assert(cs.take(k + 1).drop_last() =~= cs.take(k as int));
                    assert(cs.take(k + 1).last() == cs[k as int]);
                }
                if pool.connections[k].in_use {
                    here = here + 1;
                }
                k = k + 1;
            }
            proof {
                assert(pool.connections@.take(m as int) =~= pool.connections@);
                let pe = self.pool_entries();
                assert(pe.take(i + 1).drop_last() =~= pe.take(i as int));
                assert(pe.take(i + 1).last() == pe[i as int]);
                assert((pe[i as int]).1 == pool.connections@);
            }
            if active <= usize::MAX - here {
                active = active + here;
            } else {
                active = usize::MAX;
            }
            i = i + 1;
        }
        proof {
            assert(self.pool_entries().take(n as int) =~= self.pool_entries());
        }
        PoolGlobalStats {
            total_pools: n,
            total_connections: self.stats.total_connections,
            active_connections: active,
            cache_hits: self.stats.cache_hits,
            cache_misses: self.stats.cache_misses,
            connections_created: self.stats.connections_created,
            connections_reused: self.stats.connections_reused,
        }
    }

    /// Drops every pool and starts the counters over.
    pub fn clear(&mut self)
        ensures
            final(self).wf(),
            final(self).pool_entries().len() == 0,
            final(self).spec_config() == old(self).spec_config(),
            final(self).spec_stats().cache_hits == 0,
            final(self).spec_stats().cache_misses == 0,
            final(self).spec_stats().connections_created == 0,
            final(self).spec_stats().connections_reused == 0,
    {
        self.proxy_pools.clear();
        self.stats = PoolGlobalStats::default();
        proof {
            assert(self.pool_entries() =~= Seq::<(Seq<char>, Seq<PooledConnection<T>>)>::empty());
        }
    }

    /// The configured limits.
    pub fn get_config(&self) -> (r: &PoolConfig)
        ensures
            *r == self.spec_config(),
    {
        &self.config
    }
}

/// Copies an address into an owned string.
fn proxy_addr_to_string(addr: &str) -> (r: String)
    ensures
        r@ == addr@,
{
    addr.to_owned()
}

/// `find_idle` ignores a prefix free of the wanted address.
proof fn lemma_find_idle_prefix_miss<T>(
    ps: Seq<(Seq<char>, Seq<PooledConnection<T>>)>,
    addr: Seq<char>,
    i: int,
)
    requires
        0 <= i <= ps.len(),
        forall|j: int| 0 <= j < i ==> (#[trigger] ps[j]).0 != addr,
    ensures
        find_idle(ps, addr) == find_idle(ps.skip(i), addr),
    decreases i,
{
    if i > 0 {
        assert(ps[0].0 != addr);
        assert(ps.drop_first() =~= ps.skip(1));
        lemma_find_idle_prefix_miss(ps.drop_first(), addr, i - 1);
        assert(ps.drop_first().skip(i - 1) =~= ps.skip(i));
    } else {
        assert(ps.skip(0) =~= ps);
    }
}

/// With unique addresses, the entry at the address's slot is the one found.
proof fn lemma_find_idle_at<T>(ps: Seq<(Seq<char>, Seq<PooledConnection<T>>)>, i: int)
    requires
        0 <= i < ps.len(),
        forall|a: int, b: int|
            0 <= a < b < ps.len() ==> (#[trigger] ps[a]).0 != (#[trigger] ps[b]).0,
    ensures
        find_idle(ps, ps[i].0) == ps[i].1,
    decreases i,
{
    if i == 0 {
    } else {
        assert(ps[0].0 != ps[i].0);
        assert(forall|a: int, b: int|
            0 <= a < b < ps.drop_first().len() ==> (#[trigger] ps.drop_first()[a]).0 != (
            #[trigger] ps.drop_first()[b]).0) by {
            assert(forall|a: int|
                0 <= a < ps.drop_first().len() ==> #[trigger] ps.drop_first()[a] == ps[a + 1]);
        }
        assert(ps.drop_first()[i - 1] == ps[i]);
        lemma_find_idle_at(ps.drop_first(), i - 1);
    }
}

/// An address held by no pool finds the empty idle set.
proof fn lemma_find_idle_absent<T>(
    ps: Seq<(Seq<char>, Seq<PooledConnection<T>>)>,
    addr: Seq<char>,
)
    requires
        forall|j: int| 0 <= j < ps.len() ==> (#[trigger] ps[j]).0 != addr,
    ensures
        find_idle(ps, addr) == Seq::<PooledConnection<T>>::empty(),
{
    lemma_find_idle_prefix_miss(ps, addr, ps.len() as int);
    assert(ps.skip(ps.len() as int).len() == 0);
    assert(ps.skip(ps.len() as int) =~= Seq::<(Seq<char>, Seq<PooledConnection<T>>)>::empty());
}

/// A change confined to one slot leaves every other address's idle set as
/// it was, and the changed slot's address finds the new idle set.
proof fn lemma_find_idle_unchanged_except<T>(
    before: Seq<(Seq<char>, Seq<PooledConnection<T>>)>,
    after: Seq<(Seq<char>, Seq<PooledConnection<T>>)>,
    i: int,
)
    requires
        before.len() == after.len(),
        0 <= i < before.len(),
        forall|k: int| 0 <= k < before.len() ==> (#[trigger] after[k]).0 == before[k].0,
        forall|k: int| 0 <= k < before.len() && k != i ==> #[trigger] after[k] == before[k],
    ensures
        forall|a: Seq<char>|
            a != before[i].0 ==> #[trigger] find_idle(after, a) == find_idle(before, a),
    decreases before.len(),
{
    assert forall|a: Seq<char>| a != before[i].0 implies #[trigger] find_idle(after, a)
        == find_idle(before, a) by {
        lemma_find_idle_agree(before, after, a);
    }
}

/// Two pool tables that agree on every slot whose address is `a` — and on
/// the order of all addresses — find the same idle set for `a`.
proof fn lemma_find_idle_agree<T>(
    before: Seq<(Seq<char>, Seq<PooledConnection<T>>)>,
    after: Seq<(Seq<char>, Seq<PooledConnection<T>>)>,
    a: Seq<char>,
)
    requires
        before.len() == after.len(),
        forall|k: int| 0 <= k < before.len() ==> (#[trigger] after[k]).0 == before[k].0,
        forall|k: int| 0 <= k < before.len() && before[k].0 == a ==> #[trigger] after[k].1 == before[k].1,
    ensures
        find_idle(after, a) == find_idle(before, a),
    decreases before.len(),
{
    if before.len() > 0 {
        if before[0].0 == a {
        } else {
            assert(forall|k: int|
                0 <= k < before.drop_first().len() ==> #[trigger] before.drop_first()[k]
                    == before[k + 1] && after.drop_first()[k] == after[k + 1]);
            lemma_find_idle_agree(before.drop_first(), after.drop_first(), a);
        }
    }
}

/// Pushing a pool for a fresh address makes that address find its idle set.
proof fn lemma_find_idle_key_pushed<T>(
    before: Seq<(Seq<char>, Seq<PooledConnection<T>>)>,
    addr: Seq<char>,
    after: Seq<(Seq<char>, Seq<PooledConnection<T>>)>,
)
    requires
        forall|j: int| 0 <= j < before.len() ==> (#[trigger] before[j]).0 != addr,
        after.len() == before.len() + 1,
        forall|j: int| 0 <= j < before.len() ==> #[trigger] after[j] == before[j],
        after.last().0 == addr,
    ensures
        find_idle(after, addr) == after.last().1,
        forall|a: Seq<char>| a != addr ==> #[trigger] find_idle(after, a) == find_idle(before, a),
    decreases before.len(),
{
    if before.len() == 0 {
        assert(after[0] == after.last());
        assert(after.drop_first() =~= Seq::<(Seq<char>, Seq<PooledConnection<T>>)>::empty());
        assert forall|a: Seq<char>| a != addr implies #[trigger] find_idle(after, a) == find_idle(
            before,
            a,
        ) by {
            assert(find_idle(after, a) == find_idle(after.drop_first(), a));
        }
    } else {
        assert(after[0] == before[0]);
        assert(after[0].0 != addr);
        assert(find_idle(after, addr) == find_idle(after.drop_first(), addr));
        assert(after.drop_first().len() == before.drop_first().len() + 1);
        assert(forall|j: int|
            0 <= j < before.drop_first().len() ==> #[trigger] after.drop_first()[j]
                == before.drop_first()[j] && before.drop_first()[j] == before[j + 1]);
        assert(after.drop_first().last() == after.last());
        lemma_find_idle_key_pushed(before.drop_first(), addr, after.drop_first());
        assert forall|a: Seq<char>| a != addr implies #[trigger] find_idle(after, a) == find_idle(
            before,
            a,
        ) by {
            if before[0].0 == a {
            } else {
                assert(find_idle(after.drop_first(), a) == find_idle(before.drop_first(), a));
            }
        }
    }
}


} // verus!
