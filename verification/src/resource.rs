//! Bookkeeping of shared resources and of active connections, so that
//! neither set grows without bound: age-based trimming for resources,
//! idle-timeout trimming for connections. The resources themselves — such
//! as the semaphores bounding probe concurrency — live outside the library
//! and are held here as opaque values.

use vstd::prelude::*;

use crate::strutil::str_eq;

verus! {

/// A held resource and its accounting.
#[derive(Debug)]
pub struct ResourceEntry<T> {
    /// The resource itself.
    pub resource: T,
    /// Clock reading at which it was added.
    pub created_at: u64,
    /// Clock reading of the last hand-out.
    pub last_accessed: u64,
    /// How often it was handed out.
    pub access_count: u64,
}

/// A snapshot of the held resources.
#[derive(Debug, Clone, Copy)]
pub struct ResourceStats {
    /// Resources held.
    pub total_resources: usize,
    /// Hand-outs over all resources.
    pub total_accesses: u64,
    /// Age of the oldest resource at the snapshot's clock reading, in
    /// milliseconds, when any resource is held.
    pub oldest_resource_age_ms: Option<u64>,
}

/// Keyed storage of shared resources, trimmed by age when it grows past
/// its bound.
#[derive(Debug)]
pub struct ResourceManager<T> {
    resources: Vec<(String, ResourceEntry<T>)>,
    max_resources: usize,
}

/// The hand-out total over a resource table, clamped at the ceiling.
pub open spec fn spec_total_accesses<T>(rs: Seq<(Seq<char>, ResourceEntry<T>)>) -> int
    decreases rs.len(),
{
    if rs.len() == 0 {
        0
    } else {
        spec_total_accesses(rs.drop_last()) + rs.last().1.access_count
    }
}

impl<T> ResourceManager<T> {
    /// The held resources, as key/entry pairs.
    pub closed spec fn resources_view(&self) -> Seq<(Seq<char>, ResourceEntry<T>)> {
        Seq::new(self.resources@.len(), |i: int| (self.resources@[i].0@, self.resources@[i].1))
    }

    /// The configured bound.
    pub closed spec fn spec_max_resources(&self) -> usize {
        self.max_resources
    }

    /// An empty manager bounded at `max_resources` entries.
    pub fn new(max_resources: usize) -> (r: Self)
        ensures
            r.resources_view().len() == 0,
            r.spec_max_resources() == max_resources,
    {
        let r = ResourceManager { resources: Vec::new(), max_resources };
        proof {
            assert(r.resources_view() =~= Seq::<(Seq<char>, ResourceEntry<T>)>::empty());
        }
        r
    }

    /// Adds a resource under a key at `now`. When the table is at its
    /// bound, the least recently handed-out entry makes room, so the table
    /// never grows past the bound plus the new entry.
    pub fn add_resource(&mut self, key: String, resource: T, now: u64)
        ensures
            final(self).spec_max_resources() == old(self).spec_max_resources(),
            final(self).resources_view().len() >= 1,
            final(self).resources_view().last().0 == key@,
            final(self).resources_view().last().1.created_at == now,
            final(self).resources_view().last().1.last_accessed == now,
            final(self).resources_view().last().1.access_count == 0,
            old(self).resources_view().len() < old(self).spec_max_resources() ==> final(self).resources_view().len() == old(self).resources_view().len() + 1,
            final(self).resources_view().len() <= old(self).resources_view().len() + 1,
    {
        if self.resources.len() >= self.max_resources && self.resources.len() > 0 {
            self.evict_least_recently_used();
        }
        let ghost before = self.resources_view();
        let entry = ResourceEntry { resource, created_at: now, last_accessed: now, access_count: 0 };
        self.resources.push((key, entry));
        proof {
            assert(self.resources_view() =~= before.push(
                (
                    self.resources@[self.resources@.len() - 1].0@,
                    self.resources@[self.resources@.len() - 1].1,
                ),
            ));
        }
    }

    /// Drops the entry with the least recent hand-out.
    fn evict_least_recently_used(&mut self)
        requires
            old(self).resources_view().len() > 0,
        ensures
            final(self).spec_max_resources() == old(self).spec_max_resources(),
            final(self).resources_view().len() == old(self).resources_view().len() - 1,
            exists|m: int|
                0 <= m < old(self).resources_view().len() && final(self).resources_view() == old(self).resources_view().remove(m),
    {
        let n = self.resources.len();
        let mut m: usize = 0;
        let mut k: usize = 1;
        while k < n
            invariant
                n == self.resources@.len(),
                0 <= m < k <= n,
            decreases n - k,
        {
            if self.resources[k].1.last_accessed < self.resources[m].1.last_accessed {
                m = k;
            }
            k = k + 1;
        }
        let ghost before = self.resources_view();
        self.resources.remove(m);
        proof {
            assert(self.resources_view() =~= before.remove(m as int));
        }
    }

    /// Hands out the first resource stored under the key, if any, noting
    /// the access at `now`. The value handed out is a clone of the stored
    /// one.
    pub fn get_resource(&mut self, key: &str, now: u64) -> (r: Option<T>) where T: Clone
        ensures
            final(self).spec_max_resources() == old(self).spec_max_resources(),
            final(self).resources_view().len() == old(self).resources_view().len(),
            r is Some <==> exists|i: int|
                0 <= i < old(self).resources_view().len() && (#[trigger] old(self).resources_view()[i]).0 == key@,
            r matches Some(v) ==> exists|i: int|
                {
                    &&& 0 <= i < old(self).resources_view().len()
                    &&& (#[trigger] old(self).resources_view()[i]).0 == key@
                    &&& cloned::<T>(old(self).resources_view()[i].1.resource, v)
                    &&& final(self).resources_view()[i].1.last_accessed == now
                },
            r is None ==> final(self).resources_view() == old(self).resources_view(),
    {
        let n = self.resources.len();
        let mut i: usize = 0;
        while i < n
            invariant
                n == self.resources@.len(),
                0 <= i <= n,
                self.resources_view() == old(self).resources_view(),
                self.max_resources == old(self).spec_max_resources(),
                forall|j: int| 0 <= j < i ==> (#[trigger] self.resources_view()[j]).0 != key@,
            decreases n - i,
        {
            if str_eq(self.resources[i].0.as_str(), key) {
                let ghost before = self.resources_view();
                let (k, mut entry) = self.resources.remove(i);
                entry.last_accessed = now;
                entry.access_count = entry.access_count.saturating_add(1);
                let value = entry.resource.clone();
                self.resources.insert(i, (k, entry));
                proof {
                    assert((before[i as int]).0 == key@);
                    assert(self.resources_view().len() == before.len());
                    assert((self.resources_view()[i as int]).1.last_accessed == now);
                }
                return Some(value);
            }
            i = i + 1;
        }
        proof {
            if exists|j: int|
                0 <= j < self.resources_view().len() && (#[trigger] self.resources_view()[j]).0
                    == key@ {
                let j = choose|j: int|
                    0 <= j < self.resources_view().len() && (
                    #[trigger] self.resources_view()[j]).0 == key@;
            }
        }
        None
    }

    /// Removes the first resource stored under the key, returning it.
    pub fn remove_resource(&mut self, key: &str) -> (r: Option<T>)
        ensures
            final(self).spec_max_resources() == old(self).spec_max_resources(),
            r is Some <==> exists|i: int|
                0 <= i < old(self).resources_view().len() && (#[trigger] old(self).resources_view()[i]).0 == key@,
            r is Some ==> final(self).resources_view().len() == old(self).resources_view().len()
                - 1,
            r is None ==> final(self).resources_view() == old(self).resources_view(),
    {
        let n = self.resources.len();
        let mut i: usize = 0;
        while i < n
            invariant
                n == self.resources@.len(),
                0 <= i <= n,
                self.resources_view() == old(self).resources_view(),
                self.max_resources == old(self).spec_max_resources(),
                forall|j: int| 0 <= j < i ==> (#[trigger] self.resources_view()[j]).0 != key@,
            decreases n - i,
        {
            if str_eq(self.resources[i].0.as_str(), key) {
                let ghost before = self.resources_view();
                proof {
                    assert((before[i as int]).0 == key@);
                }
                let (_, entry) = self.resources.remove(i);
                proof {
                    assert(self.resources_view() =~= before.remove(i as int));
                }
                return Some(entry.resource);
            }
            i = i + 1;
        }
        proof {
            if exists|j: int|
                0 <= j < self.resources_view().len() && (#[trigger] self.resources_view()[j]).0
                    == key@ {
                let j = choose|j: int|
                    0 <= j < self.resources_view().len() && (
                    #[trigger] self.resources_view()[j]).0 == key@;
            }
        }
        None
    }

    /// The snapshot at `now`: the totals and the oldest resource's age.
    pub fn get_stats(&self, now: u64) -> (r: ResourceStats)
        ensures
            r.total_resources == self.resources_view().len(),
            r.oldest_resource_age_ms is Some <==> self.resources_view().len() > 0,
    {
        let n = self.resources.len();
        if n == 0 {
            return ResourceStats {
                total_resources: 0,
                total_accesses: 0,
                oldest_resource_age_ms: None,
            };
        }
        let mut accesses: u64 = 0;
        let mut oldest: u64 = 0;
        let mut i: usize = 0;
        while i < n
            invariant
                n == self.resources@.len(),
                0 <= i <= n,
            decreases n - i,
        {
            accesses = accesses.saturating_add(self.resources[i].1.access_count);
            let age = now.saturating_sub(self.resources[i].1.created_at);
            if age > oldest {
                oldest = age;
            }
            i = i + 1;
        }
        ResourceStats {
            total_resources: n,
            total_accesses: accesses,
            oldest_resource_age_ms: Some(oldest),
        }
    }
}

/// One tracked connection's accounting.
#[derive(Debug, Clone, Copy)]
pub struct ConnectionInfo {
    /// Clock reading at which the connection was registered.
    pub created_at: u64,
    /// Clock reading of its last use.
    pub last_used: u64,
    /// How often it was used.
    pub usage_count: u64,
}

/// A snapshot of the tracked connections.
#[derive(Debug, Clone, Copy)]
pub struct ConnectionStats {
    /// Connections tracked.
    pub active_connections: usize,
    /// Uses over all tracked connections, clamped at the ceiling.
    pub total_usage: u64,
}

/// Keeps the connections still within the idle timeout at `now`.
pub open spec fn within_timeout_pred(timeout_ms: u64, now: u64) -> spec_fn(
    (Seq<char>, ConnectionInfo),
) -> bool {
    |c: (Seq<char>, ConnectionInfo)| now <= c.1.last_used + timeout_ms
}

/// Tracks active connections by identifier and trims the ones idle past
/// their timeout.
#[derive(Debug)]
pub struct ConnectionPoolManager {
    connections: Vec<(String, ConnectionInfo)>,
    max_connections: usize,
    connection_timeout_ms: u64,
}

impl ConnectionPoolManager {
    /// The tracked connections, as identifier/accounting pairs.
    pub closed spec fn connections_view(&self) -> Seq<(Seq<char>, ConnectionInfo)> {
        Seq::new(self.connections@.len(), |i: int| (self.connections@[i].0@, self.connections@[i].1))
    }

    /// The configured bound.
    pub closed spec fn spec_max_connections(&self) -> usize {
        self.max_connections
    }

    /// The configured idle timeout, in milliseconds.
    pub closed spec fn spec_timeout_ms(&self) -> u64 {
        self.connection_timeout_ms
    }

    /// An empty tracker with the given bound and idle timeout.
    pub fn new(max_connections: usize, connection_timeout_ms: u64) -> (r: Self)
        ensures
            r.connections_view().len() == 0,
            r.spec_max_connections() == max_connections,
            r.spec_timeout_ms() == connection_timeout_ms,
    {
        let r = ConnectionPoolManager {
            connections: Vec::new(),
            max_connections,
            connection_timeout_ms,
        };
        proof {
            assert(r.connections_view() =~= Seq::<(Seq<char>, ConnectionInfo)>::empty());
        }
        r
    }

    /// Registers a connection at `now`. A full tracker trims its expired
    /// entries first.
    pub fn register_connection(&mut self, connection_id: String, now: u64)
        ensures
            final(self).spec_max_connections() == old(self).spec_max_connections(),
            final(self).spec_timeout_ms() == old(self).spec_timeout_ms(),
            final(self).connections_view().len() >= 1,
            final(self).connections_view().last().0 == connection_id@,
            final(self).connections_view().last().1.created_at == now,
            final(self).connections_view().last().1.last_used == now,
            final(self).connections_view().last().1.usage_count == 0,
    {
        if self.connections.len() >= self.max_connections {
            self.cleanup_expired_connections(now);
        }
        let ghost before = self.connections_view();
        let info = ConnectionInfo { created_at: now, last_used: now, usage_count: 0 };
        self.connections.push((connection_id, info));
        proof {
            assert(self.connections_view() =~= before.push(
                (
                    self.connections@[self.connections@.len() - 1].0@,
                    self.connections@[self.connections@.len() - 1].1,
                ),
            ));
        }
    }

    /// Notes a use of the first connection registered under the id.
    pub fn update_connection_usage(&mut self, connection_id: &str, now: u64)
        ensures
            final(self).spec_max_connections() == old(self).spec_max_connections(),
            final(self).spec_timeout_ms() == old(self).spec_timeout_ms(),
            final(self).connections_view().len() == old(self).connections_view().len(),
    {
        let n = self.connections.len();
        let mut i: usize = 0;
        while i < n
            invariant
                n == self.connections@.len(),
                0 <= i <= n,
                self.connections_view() == old(self).connections_view(),
                self.max_connections == old(self).spec_max_connections(),
                self.connection_timeout_ms == old(self).spec_timeout_ms(),
            decreases n - i,
        {
            if str_eq(self.connections[i].0.as_str(), connection_id) {
                let (k, mut info) = self.connections.remove(i);
                info.last_used = now;
                info.usage_count = info.usage_count.saturating_add(1);
                self.connections.insert(i, (k, info));
                return ;
            }
            i = i + 1;
        }
    }

    /// Removes the first connection registered under the id.
    pub fn remove_connection(&mut self, connection_id: &str)
        ensures
            final(self).spec_max_connections() == old(self).spec_max_connections(),
            final(self).spec_timeout_ms() == old(self).spec_timeout_ms(),
            final(self).connections_view().len() <= old(self).connections_view().len(),
    {
        let n = self.connections.len();
        let mut i: usize = 0;
        while i < n
            invariant
                n == self.connections@.len(),
                0 <= i <= n,
                self.connections_view() == old(self).connections_view(),
                self.max_connections == old(self).spec_max_connections(),
                self.connection_timeout_ms == old(self).spec_timeout_ms(),
            decreases n - i,
        {
            if str_eq(self.connections[i].0.as_str(), connection_id) {
                self.connections.remove(i);
                return ;
            }
            i = i + 1;
        }
    }

    /// Drops every connection idle past the timeout at `now`.
    pub fn cleanup_expired_connections(&mut self, now: u64)
        ensures
            final(self).spec_max_connections() == old(self).spec_max_connections(),
            final(self).spec_timeout_ms() == old(self).spec_timeout_ms(),
            final(self).connections_view() == old(self).connections_view().filter(
                within_timeout_pred(old(self).spec_timeout_ms(), now),
            ),
    {
        broadcast use vstd::prelude::Seq::filter_distributes_over_add;
        broadcast use vstd::prelude::Seq::lemma_filter_len;

        let ghost orig = self.connections_view();
        let timeout = self.connection_timeout_ms;
        let n = self.connections.len();
        let mut i: usize = n;
        while i > 0
            invariant
                n == orig.len(),
                0 <= i <= n,
                timeout == old(self).spec_timeout_ms(),
                self.connections_view() == orig.take(i as int) + orig.skip(i as int).filter(
                    within_timeout_pred(timeout, now),
                ),
                self.connections_view().len() >= i,
                self.max_connections == old(self).spec_max_connections(),
                self.connection_timeout_ms == old(self).spec_timeout_ms(),
            decreases i,
        {
            let keep = now.saturating_sub(self.connections[i - 1].1.last_used) <= timeout;
            proof {
                assert((self.connections_view()[i - 1]) == orig[i - 1]);
                assert(orig.skip(i - 1) =~= seq![orig[i - 1]] + orig.skip(i as int));
                reveal_with_fuel(Seq::filter, 3);
                assert(seq![orig[i - 1]].drop_last() =~= Seq::<(Seq<char>, ConnectionInfo)>::empty());
                assert(seq![orig[i - 1]].filter(within_timeout_pred(timeout, now))
                    == if within_timeout_pred(timeout, now)(orig[i - 1]) {
                    seq![orig[i - 1]]
                } else {
                    Seq::<(Seq<char>, ConnectionInfo)>::empty()
                });
            }
            if !keep {
                let ghost pre = self.connections_view();
                self.connections.remove(i - 1);
                proof {
                    assert(self.connections_view() =~= pre.remove(i - 1));
                    assert(pre.remove(i - 1) =~= orig.take(i - 1) + orig.skip(i as int).filter(
                        within_timeout_pred(timeout, now),
                    ));
                    assert(self.connections_view() =~= orig.take(i - 1) + orig.skip(i - 1).filter(
                        within_timeout_pred(timeout, now),
                    ));
                }
            } else {
                proof {
                    assert(self.connections_view() =~= orig.take(i - 1) + orig.skip(i - 1).filter(
                        within_timeout_pred(timeout, now),
                    ));
                }
            }
            i = i - 1;
        }
        proof {
            assert(orig.take(0) =~= Seq::<(Seq<char>, ConnectionInfo)>::empty());
            assert(orig.skip(0) =~= orig);
            assert(self.connections_view() =~= orig.filter(within_timeout_pred(timeout, now)));
        }
    }

    /// The snapshot: how many connections are tracked and their use total.
    pub fn get_connection_stats(&self) -> (r: ConnectionStats)
        ensures
            r.active_connections == self.connections_view().len(),
    {
        let n = self.connections.len();
        let mut usage: u64 = 0;
        let mut i: usize = 0;
        while i < n
            invariant
                n == self.connections@.len(),
                0 <= i <= n,
            decreases n - i,
        {
            usage = usage.saturating_add(self.connections[i].1.usage_count);
            i = i + 1;
        }
        ConnectionStats { active_connections: n, total_usage: usage }
    }
}

} // verus!
