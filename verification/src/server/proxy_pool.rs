//! The pool of admitted proxies: admission with its invariants, selection
//! of the best upstream for a protocol, and outcome accounting with
//! eviction of chronic failers.

use vstd::prelude::*;

use crate::resolver::GeoData;
use crate::strutil::{dec_rep, str_eq, u64_to_string};
use vstd::string::StringExecFns;

verus! {

/// After this many failures in a row, a proxy leaves the pool.
pub const FAILURE_EVICTION_LIMIT: u64 = 3;

/// The protocols a proxy can be verified for.
#[derive(Debug, Clone, Copy, PartialEq, Eq, Structural, Hash)]
pub enum Protocol {
    /// Plain HTTP forwarding.
    Http,
    /// HTTPS, tunnelled with CONNECT.
    Https,
    /// SOCKS version 4.
    Socks4,
    /// SOCKS version 5.
    Socks5,
    /// CONNECT to port 80.
    Connect80,
    /// CONNECT to port 25.
    Connect25,
}

impl Protocol {
    /// The protocol named by the text, if any.
    pub fn from_name(name: &str) -> (r: Option<Protocol>)
        ensures
            r == spec_protocol_of(name@),
    {
        if str_eq(name, "HTTP") {
            Some(Protocol::Http)
        } else if str_eq(name, "HTTPS") {
            Some(Protocol::Https)
        } else if str_eq(name, "SOCKS4") {
            Some(Protocol::Socks4)
        } else if str_eq(name, "SOCKS5") {
            Some(Protocol::Socks5)
        } else if str_eq(name, "CONNECT:80") {
            Some(Protocol::Connect80)
        } else if str_eq(name, "CONNECT:25") {
            Some(Protocol::Connect25)
        } else {
            None
        }
    }

    /// The text naming the protocol.
    pub fn name(&self) -> (r: &'static str)
        ensures
            r@ == match *self {
                Protocol::Http => "HTTP"@,
                Protocol::Https => "HTTPS"@,
                Protocol::Socks4 => "SOCKS4"@,
                Protocol::Socks5 => "SOCKS5"@,
                Protocol::Connect80 => "CONNECT:80"@,
                Protocol::Connect25 => "CONNECT:25"@,
            },
    {
        match self {
            Protocol::Http => "HTTP",
            Protocol::Https => "HTTPS",
            Protocol::Socks4 => "SOCKS4",
            Protocol::Socks5 => "SOCKS5",
            Protocol::Connect80 => "CONNECT:80",
            Protocol::Connect25 => "CONNECT:25",
        }
    }
}

/// The protocol each name stands for.
pub open spec fn spec_protocol_of(name: Seq<char>) -> Option<Protocol> {
    if name == "HTTP"@ {
        Some(Protocol::Http)
    } else if name == "HTTPS"@ {
        Some(Protocol::Https)
    } else if name == "SOCKS4"@ {
        Some(Protocol::Socks4)
    } else if name == "SOCKS5"@ {
        Some(Protocol::Socks5)
    } else if name == "CONNECT:80"@ {
        Some(Protocol::Connect80)
    } else if name == "CONNECT:25"@ {
        Some(Protocol::Connect25)
    } else {
        None
    }
}

/// What the judge's echo revealed about the proxy.
#[derive(Debug, Clone, Copy, PartialEq, Eq, Structural)]
pub enum AnonymityLevel {
    /// The judge saw the client's real address.
    Transparent,
    /// The judge saw proxy markers, but not the real address.
    Anonymous,
    /// The judge saw neither.
    High,
    /// Not measured; only HTTP proxies are classified.
    Unknown,
}

/// Whether blocklist screening has cleared the proxy.
#[derive(Debug, Clone, Copy, PartialEq, Eq, Structural)]
pub enum DnsblSafety {
    /// Not screened yet.
    Unknown,
    /// Screened and clean.
    Safe,
    /// Screened and listed.
    Listed,
}

/// An admitted proxy and its running account.
#[derive(Debug)]
pub struct Proxy {
    /// Host as given by the provider.
    pub host: String,
    /// Port the proxy listens on.
    pub port: u16,
    /// The host's resolved IPv4 address, when known.
    pub resolved_ip: Option<[u8; 4]>,
    /// Where the address appears to be located.
    pub geo: GeoData,
    /// The protocols validation confirmed; never empty in the pool.
    pub verified_protocols: Vec<Protocol>,
    /// The measured anonymity class, for HTTP.
    pub anonymity: AnonymityLevel,
    /// Round-trip samples from validation and use, in milliseconds.
    pub latency_samples_ms: Vec<u64>,
    /// Sum of the samples, clamped at the integer ceiling.
    pub total_latency_ms: u64,
    /// Requests dispatched through this proxy.
    pub request_count: u64,
    /// Requests that failed.
    pub error_count: u64,
    /// Failures since the last success.
    pub consecutive_failures: u64,
    /// Clock reading of the last dispatch.
    pub last_used_at: u64,
    /// Clock reading of admission.
    pub created_at: u64,
    /// The blocklist screening verdict.
    pub dnsbl_safe: DnsblSafety,
}

impl Proxy {
    /// The `host:port` text of the proxy.
    pub fn as_text(&self) -> (r: String)
        ensures
            r@ == self.host@ + ":"@ + dec_rep(self.port as int),
    {
        let mut r = self.host.clone();
        r.append(":");
        let port_text = u64_to_string(self.port as u64);
        r.append(port_text.as_str());
        r
    }

    /// Whether the proxy was verified for the protocol.
    pub fn supports(&self, protocol: Protocol) -> (r: bool)
        ensures
            r == self.verified_protocols@.contains(protocol),
    {
        let n = self.verified_protocols.len();
        let mut i: usize = 0;
        while i < n
            invariant
                n == self.verified_protocols@.len(),
                0 <= i <= n,
                forall|j: int| 0 <= j < i ==> self.verified_protocols@[j] != protocol,
            decreases n - i,
        {
            if self.verified_protocols[i] == protocol {
                return true;
            }
            i = i + 1;
        }
        proof {
            if self.verified_protocols@.contains(protocol) {
                let j = choose|j: int|
                    0 <= j < self.verified_protocols@.len() && self.verified_protocols@[j]
                        == protocol;
            }
        }
        false
    }

    /// Mean latency over the samples, zero with no samples.
    pub fn avg_response_ms(&self) -> (r: u64)
        ensures
            r == spec_avg_ms(*self),
    {
        if self.latency_samples_ms.len() == 0 {
            0
        } else {
            self.total_latency_ms / (self.latency_samples_ms.len() as u64)
        }
    }
}

/// Mean latency of a proxy, zero with no samples.
pub open spec fn spec_avg_ms(p: Proxy) -> int {
    if p.latency_samples_ms@.len() == 0 {
        0
    } else {
        p.total_latency_ms as int / p.latency_samples_ms@.len() as int
    }
}

/// Success weight of a proxy as a fraction: successful requests over all
/// requests, treated as perfect while nothing was dispatched yet.
pub open spec fn spec_rate_num(p: Proxy) -> int {
    if p.request_count == 0 {
        1
    } else if p.error_count <= p.request_count {
        p.request_count - p.error_count
    } else {
        0
    }
}

/// Denominator of the success weight.
pub open spec fn spec_rate_den(p: Proxy) -> int {
    if p.request_count == 0 {
        1
    } else {
        p.request_count as int
    }
}

/// Strict preference between proxies: a higher success rate wins; at equal
/// rates a lower mean latency wins; at equal rates and latencies a lower
/// current load wins.
pub open spec fn spec_pref_gt(a: Proxy, b: Proxy) -> bool {
    let ra = spec_rate_num(a) * spec_rate_den(b);
    let rb = spec_rate_num(b) * spec_rate_den(a);
    ||| ra > rb
    ||| (ra == rb && spec_avg_ms(a) < spec_avg_ms(b))
    ||| (ra == rb && spec_avg_ms(a) == spec_avg_ms(b) && a.request_count < b.request_count)
}

/// A proxy is a selection candidate for a protocol when it was verified for
/// it and its mean latency does not exceed the pool's ceiling.
pub open spec fn spec_candidate(p: Proxy, protocol: Protocol, max_avg_ms: u64) -> bool {
    p.verified_protocols@.contains(protocol) && spec_avg_ms(p) <= max_avg_ms
}

/// Whether strict preference holds, executably.
fn pref_gt(a: &Proxy, b: &Proxy) -> (r: bool)
    ensures
        r == spec_pref_gt(*a, *b),
{
    let a_num: u128 = if a.request_count == 0 {
        1
    } else if a.error_count <= a.request_count {
        (a.request_count - a.error_count) as u128
    } else {
        0
    };
    let a_den: u128 = if a.request_count == 0 {
        1
    } else {
        a.request_count as u128
    };
    let b_num: u128 = if b.request_count == 0 {
        1
    } else if b.error_count <= b.request_count {
        (b.request_count - b.error_count) as u128
    } else {
        0
    };
    let b_den: u128 = if b.request_count == 0 {
        1
    } else {
        b.request_count as u128
    };
    proof {
        assert(a_num * b_den <= u128::MAX && b_num * a_den <= u128::MAX) by (nonlinear_arith)
            requires
                0 <= a_num <= u64::MAX,
                0 <= b_den <= u64::MAX,
                0 <= b_num <= u64::MAX,
                0 <= a_den <= u64::MAX,
        ;
    }
    let ra = a_num * b_den;
    let rb = b_num * a_den;
    if ra > rb {
        true
    } else if ra < rb {
        false
    } else {
        let avg_a = a.avg_response_ms();
        let avg_b = b.avg_response_ms();
        if avg_a < avg_b {
            true
        } else if avg_a > avg_b {
            false
        } else {
            a.request_count < b.request_count
        }
    }
}

/// The pool of admitted proxies.
#[derive(Debug)]
pub struct ProxyPool {
    proxies: Vec<Proxy>,
    max_avg_resp_time_ms: u64,
    screening_enforced: bool,
}

impl ProxyPool {
    /// The admitted proxies.
    pub closed spec fn spec_proxies(&self) -> Seq<Proxy> {
        self.proxies@
    }

    /// The mean-latency ceiling a selection candidate must meet.
    pub closed spec fn spec_max_avg_ms(&self) -> u64 {
        self.max_avg_resp_time_ms
    }

    /// Whether only screened-safe proxies are admitted.
    pub closed spec fn spec_screening_enforced(&self) -> bool {
        self.screening_enforced
    }

    /// Every admitted proxy has a verified protocol, and, where screening
    /// is enforced, a clean screening verdict.
    pub open spec fn wf(&self) -> bool {
        forall|i: int|
            0 <= i < self.spec_proxies().len() ==> (#[trigger] self.spec_proxies()[i])
                .verified_protocols@.len() > 0 && (self.spec_screening_enforced()
                ==> self.spec_proxies()[i].dnsbl_safe is Safe)
    }

    /// An empty pool with an eight-second latency ceiling, screening not
    /// enforced.
    pub fn new() -> (r: Self)
        ensures
            r.wf(),
            r.spec_proxies().len() == 0,
            r.spec_max_avg_ms() == 8000,
            !r.spec_screening_enforced(),
    {
        ProxyPool { proxies: Vec::new(), max_avg_resp_time_ms: 8000, screening_enforced: false }
    }

    /// An empty pool with the given latency ceiling in milliseconds.
    pub fn with_max_resp_time(max_avg_resp_time_ms: u64) -> (r: Self)
        ensures
            r.wf(),
            r.spec_proxies().len() == 0,
            r.spec_max_avg_ms() == max_avg_resp_time_ms,
            !r.spec_screening_enforced(),
    {
        ProxyPool { proxies: Vec::new(), max_avg_resp_time_ms, screening_enforced: false }
    }

    /// Makes admission demand a clean screening verdict; only an empty pool
    /// can change policy, so the invariant never weakens.
    pub fn enforce_screening(&mut self)
        requires
            old(self).spec_proxies().len() == 0,
        ensures
            final(self).wf(),
            final(self).spec_proxies().len() == 0,
            final(self).spec_screening_enforced(),
            final(self).spec_max_avg_ms() == old(self).spec_max_avg_ms(),
    {
        self.screening_enforced = true;
    }

    /// Admits a proxy: only one with at least one verified protocol, and,
    /// under enforced screening, a clean verdict, enters the pool.
    pub fn put(&mut self, proxy: Proxy) -> (admitted: bool)
        requires
            old(self).wf(),
        ensures
            final(self).wf(),
            admitted == (proxy.verified_protocols@.len() > 0 && (old(self).spec_screening_enforced() ==> proxy.dnsbl_safe is Safe)),
            admitted ==> final(self).spec_proxies() == old(self).spec_proxies().push(proxy),
            !admitted ==> final(self).spec_proxies() == old(self).spec_proxies(),
            final(self).spec_max_avg_ms() == old(self).spec_max_avg_ms(),
            final(self).spec_screening_enforced() == old(self).spec_screening_enforced(),
    {
        let screening_ok = if self.screening_enforced {
            match proxy.dnsbl_safe {
                DnsblSafety::Safe => true,
                _ => false,
            }
        } else {
            true
        };
        if proxy.verified_protocols.len() > 0 && screening_ok {
            self.proxies.push(proxy);
            true
        } else {
            false
        }
    }

    /// How many proxies the pool holds.
    pub fn len(&self) -> (r: usize)
        ensures
            r == self.spec_proxies().len(),
    {
        self.proxies.len()
    }

    /// The proxy at an index.
    pub fn proxy_at(&self, i: usize) -> (r: &Proxy)
        requires
            i < self.spec_proxies().len(),
        ensures
            *r == self.spec_proxies()[i as int],
    {
        &self.proxies[i]
    }

    /// Picks the best candidate for the protocol: among the proxies
    /// verified for it whose mean latency meets the ceiling, one that no
    /// other candidate strictly beats. Exactly when no candidate exists,
    /// nothing is returned.
    pub fn select(&self, protocol: Protocol) -> (r: Option<usize>)
        ensures
            r is Some <==> exists|j: int|
                0 <= j < self.spec_proxies().len() && spec_candidate(
                    #[trigger] self.spec_proxies()[j],
                    protocol,
                    self.spec_max_avg_ms(),
                ),
            r matches Some(i) ==> {
                &&& i < self.spec_proxies().len()
                &&& spec_candidate(
                    self.spec_proxies()[i as int],
                    protocol,
                    self.spec_max_avg_ms(),
                )
                &&& forall|j: int|
                    0 <= j < self.spec_proxies().len() && spec_candidate(
                        #[trigger] self.spec_proxies()[j],
                        protocol,
                        self.spec_max_avg_ms(),
                    ) ==> !spec_pref_gt(self.spec_proxies()[j], self.spec_proxies()[i as int])
            },
    {
        let n = self.proxies.len();
        let mut best: Option<usize> = None;
        let mut k: usize = 0;
        while k < n
            invariant
                n == self.proxies@.len(),
                0 <= k <= n,
                match best {
                    Some(b) => {
                        &&& b < k
                        &&& spec_candidate(
                            self.spec_proxies()[b as int],
                            protocol,
                            self.spec_max_avg_ms(),
                        )
                        &&& forall|j: int|
                            0 <= j < k && spec_candidate(
                                #[trigger] self.spec_proxies()[j],
                                protocol,
                                self.spec_max_avg_ms(),
                            ) ==> !spec_pref_gt(
                                self.spec_proxies()[j],
                                self.spec_proxies()[b as int],
                            )
                    },
                    None => forall|j: int|
                        0 <= j < k ==> !spec_candidate(
                            #[trigger] self.spec_proxies()[j],
                            protocol,
                            self.spec_max_avg_ms(),
                        ),
                },
            decreases n - k,
        {
            let is_candidate = self.proxies[k].supports(protocol)
                && self.proxies[k].avg_response_ms() <= self.max_avg_resp_time_ms;
            if is_candidate {
                let better = match best {
                    Some(b) => pref_gt(&self.proxies[k], &self.proxies[b]),
                    None => true,
                };
                if better {
                    proof {
                        lemma_pref_gt_asymmetric();
                        match best {
                            Some(b) => {
                                assert forall|j: int|
                                    0 <= j < k + 1 && spec_candidate(
                                        #[trigger] self.spec_proxies()[j],
                                        protocol,
                                        self.spec_max_avg_ms(),
                                    ) implies !spec_pref_gt(
                                    self.spec_proxies()[j],
                                    self.spec_proxies()[k as int],
                                ) by {
                                    if j < k && spec_pref_gt(
                                        self.spec_proxies()[j],
                                        self.spec_proxies()[k as int],
                                    ) {
                                        lemma_pref_gt_trans(
                                            self.spec_proxies()[j],
                                            self.spec_proxies()[k as int],
                                            self.spec_proxies()[b as int],
                                        );
                                    }
                                }
                            },
                            None => {},
                        }
                    }
                    best = Some(k);
                }
            }
            k = k + 1;
        }
        best
    }

    /// Index of the first proxy with the given host and port, so that an
    /// outcome measured against a selected proxy can be credited to the
    /// same record even after concurrent pool changes.
    pub fn find_proxy(&self, host: &str, port: u16) -> (r: Option<usize>)
        ensures
            r matches Some(i) ==> i < self.spec_proxies().len() && self.spec_proxies()[
                i as int
            ].host@ == host@ && self.spec_proxies()[i as int].port == port,
            r is None ==> forall|j: int|
                0 <= j < self.spec_proxies().len() ==> !((#[trigger] self.spec_proxies()[j]).host@
                    == host@ && self.spec_proxies()[j].port == port),
    {
        let n = self.proxies.len();
        let mut i: usize = 0;
        while i < n
            invariant
                n == self.proxies@.len(),
                0 <= i <= n,
                forall|j: int|
                    0 <= j < i ==> !((#[trigger] self.spec_proxies()[j]).host@ == host@
                        && self.spec_proxies()[j].port == port),
            decreases n - i,
        {
            if crate::strutil::str_eq(self.proxies[i].host.as_str(), host) && self.proxies[i].port
                == port {
                return Some(i);
            }
            i = i + 1;
        }
        None
    }

    /// Accounts the outcome of one dispatch through the proxy at `i`: the
    /// request counter moves; a failure moves the error counter and the
    /// failure streak; a success clears the streak and records the latency.
    /// A proxy whose failure streak reaches the eviction limit leaves the
    /// pool.
    pub fn record_outcome(&mut self, i: usize, ok: bool, latency_ms: Option<u64>, now: u64)
        requires
            old(self).wf(),
            i < old(self).spec_proxies().len(),
        ensures
            final(self).wf(),
            final(self).spec_max_avg_ms() == old(self).spec_max_avg_ms(),
            final(self).spec_screening_enforced() == old(self).spec_screening_enforced(),
            ok ==> {
                &&& final(self).spec_proxies().len() == old(self).spec_proxies().len()
                &&& final(self).spec_proxies()[i as int].consecutive_failures == 0
                &&& final(self).spec_proxies()[i as int].request_count == sat64(
                    old(self).spec_proxies()[i as int].request_count,
                    1,
                )
                &&& final(self).spec_proxies()[i as int].error_count == old(self).spec_proxies()[i as int].error_count
                &&& final(self).spec_proxies()[i as int].last_used_at == now
                &&& (forall|j: int|
                    0 <= j < old(self).spec_proxies().len() && j != i ==> final(self).spec_proxies()[j] == #[trigger] old(self).spec_proxies()[j])
            },
            !ok && old(self).spec_proxies()[i as int].consecutive_failures + 1
                < FAILURE_EVICTION_LIMIT ==> {
                &&& final(self).spec_proxies().len() == old(self).spec_proxies().len()
                &&& final(self).spec_proxies()[i as int].consecutive_failures == old(self).spec_proxies()[i as int].consecutive_failures + 1
                &&& final(self).spec_proxies()[i as int].error_count == sat64(
                    old(self).spec_proxies()[i as int].error_count,
                    1,
                )
                &&& (forall|j: int|
                    0 <= j < old(self).spec_proxies().len() && j != i ==> final(self).spec_proxies()[j] == #[trigger] old(self).spec_proxies()[j])
            },
            !ok && old(self).spec_proxies()[i as int].consecutive_failures + 1
                >= FAILURE_EVICTION_LIMIT ==> final(self).spec_proxies() == old(self).spec_proxies().remove(i as int),
    {
        let mut p = self.proxies.remove(i);
        p.request_count = p.request_count.saturating_add(1);
        p.last_used_at = now;
        if ok {
            p.consecutive_failures = 0;
            match latency_ms {
                Some(ms) => {
                    p.total_latency_ms = p.total_latency_ms.saturating_add(ms);
                    p.latency_samples_ms.push(ms);
                },
                None => {},
            }
            self.proxies.insert(i, p);
            proof {
                assert(self.spec_proxies().len() == old(self).spec_proxies().len());
                assert forall|j: int|
                    0 <= j < old(self).spec_proxies().len() && j != i implies final(self).spec_proxies()[j] == #[trigger] old(self).spec_proxies()[j] by {
                    if j < i {
                    } else {
                        assert(old(self).spec_proxies().remove(i as int)[j - 1] == old(self).spec_proxies()[j]);
                    }
                }
            }
        } else {
            p.error_count = p.error_count.saturating_add(1);
            if p.consecutive_failures.saturating_add(1) >= FAILURE_EVICTION_LIMIT {
                proof {
                    lemma_wf_remove(old(self).spec_proxies(), i as int, self.screening_enforced);
                }
            } else {
                p.consecutive_failures = p.consecutive_failures + 1;
                self.proxies.insert(i, p);
                proof {
                    assert forall|j: int|
                        0 <= j < old(self).spec_proxies().len() && j != i implies final(self).spec_proxies()[j] == #[trigger] old(self).spec_proxies()[j] by {
                        if j < i {
                        } else {
                            assert(old(self).spec_proxies().remove(i as int)[j - 1] == old(self).spec_proxies()[j]);
                        }
                    }
                }
            }
        }
    }
}

/// Unsigned addition clamped at the integer ceiling.
pub open spec fn sat64(a: u64, b: u64) -> u64 {
    if a + b <= u64::MAX {
        (a + b) as u64
    } else {
        u64::MAX
    }
}

/// Strict preference never holds both ways.
proof fn lemma_pref_gt_asymmetric()
    ensures
        forall|a: Proxy, b: Proxy| spec_pref_gt(a, b) ==> !spec_pref_gt(b, a),
{
}

/// Strict preference is transitive.
proof fn lemma_pref_gt_trans(a: Proxy, b: Proxy, c: Proxy)
    requires
        spec_pref_gt(a, b),
        spec_pref_gt(b, c),
    ensures
        spec_pref_gt(a, c),
{
    let na = spec_rate_num(a);
    let nb = spec_rate_num(b);
    let nc = spec_rate_num(c);
    let da = spec_rate_den(a);
    let db = spec_rate_den(b);
    let dc = spec_rate_den(c);
    assert(da >= 1 && db >= 1 && dc >= 1);
    if na * db > nb * da && nb * dc > nc * db {
        assert(na * dc > nc * da) by (nonlinear_arith)
            requires
                na * db > nb * da,
                nb * dc > nc * db,
                da >= 1,
                db >= 1,
                dc >= 1,
        ;
    } else if na * db > nb * da && nb * dc == nc * db {
        assert(na * dc > nc * da) by (nonlinear_arith)
            requires
                na * db > nb * da,
                nb * dc == nc * db,
                da >= 1,
                db >= 1,
                dc >= 1,
        ;
    } else if na * db == nb * da && nb * dc > nc * db {
        assert(na * dc > nc * da) by (nonlinear_arith)
            requires
                na * db == nb * da,
                nb * dc > nc * db,
                da >= 1,
                db >= 1,
                dc >= 1,
        ;
    } else {
        assert(na * db == nb * da && nb * dc == nc * db);
        assert(na * dc == nc * da) by (nonlinear_arith)
            requires
                na * db == nb * da,
                nb * dc == nc * db,
                da >= 1,
                db >= 1,
                dc >= 1,
        ;
    }
}

/// Removing a proxy preserves the pool invariant's element conditions.
proof fn lemma_wf_remove(ps: Seq<Proxy>, i: int, enforced: bool)
    requires
        0 <= i < ps.len(),
        forall|k: int|
            0 <= k < ps.len() ==> (#[trigger] ps[k]).verified_protocols@.len() > 0 && (enforced
                ==> ps[k].dnsbl_safe is Safe),
    ensures
        forall|k: int|
            0 <= k < ps.remove(i).len() ==> (#[trigger] ps.remove(i)[k]).verified_protocols@.len()
                > 0 && (enforced ==> ps.remove(i)[k].dnsbl_safe is Safe),
{
    assert forall|k: int|
        0 <= k < ps.remove(i).len() implies (#[trigger] ps.remove(i)[k]).verified_protocols@.len()
        > 0 && (enforced ==> ps.remove(i)[k].dnsbl_safe is Safe) by {
        if k < i {
            assert(ps.remove(i)[k] == ps[k]);
        } else {
            assert(ps.remove(i)[k] == ps[k + 1]);
        }
    }
}

/// When exactly one proxy in the pool is verified for the protocol, any
/// selection the pool makes for that protocol returns that proxy: adding a
/// candidate and selecting under its sole supported protocol yields the
/// record that was added.
pub proof fn lemma_sole_candidate_selected(
    ps: Seq<Proxy>,
    protocol: Protocol,
    max_avg_ms: u64,
    i: int,
    k: int,
)
    requires
        0 <= i < ps.len(),
        spec_candidate(ps[i], protocol, max_avg_ms),
        forall|j: int|
            0 <= j < ps.len() && j != i ==> !(#[trigger] ps[j]).verified_protocols@.contains(
                protocol,
            ),
        0 <= k < ps.len(),
        spec_candidate(ps[k], protocol, max_avg_ms),
    ensures
        k == i,
{
}

} // verus!
