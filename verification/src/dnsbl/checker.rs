//! Orchestration of a screening check. The checker owns the list
//! collection, the verdict cache and the policy; it decides which lists a
//! check consults, when early termination stops the fan-out, and what the
//! assembled verdict says. The DNS fan-out itself is network work and runs
//! outside the library, feeding per-list results back in.

use vstd::prelude::*;

use crate::dnsbl::cache::{
    find_entry, manager_ttl_ms, sat_add, spec_lookup, CacheEntryView, CacheStats,
    DnsblCacheManager,
};
use crate::dnsbl::lists::{
    effective_selection, ip_to_dnsbl_format, ref_views, sorted_lists, DnsblList, DnsblListView,
    DnsblLists, DnsblStats,
};
use crate::dnsbl::{DnsblCheckResults, DnsblConfig, DnsblResult, DnsblResultView};
use crate::strutil::{join_dots, lex_le, lemma_lex_le_total, split_dots, str_le, string_views};
use vstd::multiset::Multiset;

verus! {

/// An address is queryable exactly when it is a literal IPv4 address:
/// anything else — a name, an IPv6 address, a malformed quad — fails the
/// check before any query.
pub open spec fn spec_valid_query_ip(s: Seq<char>) -> bool {
    crate::ip::is_ipv4_literal(s)
}

/// The views of a sequence of owned lists.
pub open spec fn list_views(s: Seq<DnsblList>) -> Seq<DnsblListView> {
    Seq::new(s.len(), |i: int| s[i]@)
}

/// The views of a sequence of per-list results.
pub open spec fn result_views(s: Seq<DnsblResult>) -> Seq<DnsblResultView> {
    Seq::new(s.len(), |i: int| s[i]@)
}

/// Results ordered by list identifier.
pub open spec fn sorted_results(s: Seq<DnsblResultView>) -> bool {
    forall|i: int, j: int| 0 <= i <= j < s.len() ==> lex_le(s[i].list_name, s[j].list_name)
}

/// How a screening check starts.
pub enum BeginCheck {
    /// The address is not a queryable IPv4 address; the check fails.
    Invalid,
    /// A live cached verdict answers the check with no queries at all.
    Cached(DnsblCheckResults),
    /// The check must query: the reversed-label form of the address, and
    /// the effective lists in the order they should be consulted.
    Query { reversed: String, lists: Vec<DnsblList> },
}

/// Coordinates screening checks against the configured blocklists.
#[derive(Debug)]
pub struct DnsblChecker {
    cache_manager: DnsblCacheManager,
    lists: DnsblLists,
    config: DnsblConfig,
}

impl DnsblChecker {
    /// The cached entries.
    pub closed spec fn entries(&self) -> Seq<(Seq<char>, CacheEntryView)> {
        self.cache_manager.entries()
    }

    /// The known lists.
    pub closed spec fn lists_view(&self) -> Seq<DnsblListView> {
        self.lists@
    }

    /// The policy's malicious threshold.
    pub closed spec fn spec_threshold(&self) -> usize {
        self.config.malicious_threshold
    }

    /// The policy's explicitly chosen list ids.
    pub closed spec fn spec_specific(&self) -> Seq<Seq<char>> {
        string_views(self.config.specific_lists@)
    }

    /// The policy's excluded list ids.
    pub closed spec fn spec_excluded(&self) -> Seq<Seq<char>> {
        string_views(self.config.excluded_lists@)
    }

    /// The policy's cache lifetime, in seconds.
    pub closed spec fn spec_cache_ttl_secs(&self) -> u64 {
        self.cache_manager.spec_cache_ttl_secs()
    }

    /// The cache's counters.
    pub closed spec fn spec_cache_stats(&self) -> CacheStats {
        self.cache_manager.spec_stats()
    }

    /// The cache holds each key once.
    pub closed spec fn wf(&self) -> bool {
        self.cache_manager.wf()
    }

    /// A checker with the default policy and the built-in lists; `now`
    /// seeds the cache's cleanup clock.
    pub fn new(now: u64) -> (r: Self)
        ensures
            r.wf(),
            r.entries().len() == 0,
            r.lists_view() == crate::dnsbl::lists::spec_default_lists(),
            r.spec_threshold() == 2,
            r.spec_specific().len() == 0,
            r.spec_excluded().len() == 0,
    {
        Self::with_config(DnsblConfig::default(), now)
    }

    /// A checker with the given policy and the built-in lists.
    pub fn with_config(config: DnsblConfig, now: u64) -> (r: Self)
        ensures
            r.wf(),
            r.entries().len() == 0,
            r.lists_view() == crate::dnsbl::lists::spec_default_lists(),
            r.spec_threshold() == config.malicious_threshold,
            r.spec_specific() == string_views(config.specific_lists@),
            r.spec_excluded() == string_views(config.excluded_lists@),
            r.spec_cache_ttl_secs() == config.cache_ttl_secs,
    {
        let cache_manager = DnsblCacheManager::new(config.clone(), now);
        let lists = DnsblLists::new();
        let r = DnsblChecker { cache_manager, lists, config };
        proof {
            assert(r.spec_specific() =~= string_views(config.specific_lists@));
            assert(r.spec_excluded() =~= string_views(config.excluded_lists@));
        }
        r
    }

    /// Starts a check: a malformed or IPv6 address fails at once; a live
    /// cached verdict is served without queries, counting a cache hit; an
    /// uncached valid address yields the reversed query label and the
    /// effective lists, ordered by priority then response time.
    pub fn begin_check(&mut self, ip: &str, now: u64) -> (r: BeginCheck)
        requires
            old(self).wf(),
        ensures
            final(self).wf(),
            final(self).lists_view() == old(self).lists_view(),
            final(self).spec_threshold() == old(self).spec_threshold(),
            final(self).spec_specific() == old(self).spec_specific(),
            final(self).spec_excluded() == old(self).spec_excluded(),
            final(self).spec_cache_ttl_secs() == old(self).spec_cache_ttl_secs(),
            r is Invalid <==> !spec_valid_query_ip(ip@),
            r matches BeginCheck::Cached(v) ==> Some(v@) == spec_lookup(
                old(self).entries(),
                ip@,
                now,
            ),
            r is Cached <==> spec_valid_query_ip(ip@) && spec_lookup(
                old(self).entries(),
                ip@,
                now,
            ) is Some,
            r is Query ==> spec_lookup(old(self).entries(), ip@, now) is None,
            r matches BeginCheck::Query { reversed, lists } ==> {
                &&& reversed@ == join_dots(split_dots(ip@).reverse())
                &&& list_views(lists@).to_multiset() == effective_selection(
                    old(self).lists_view(),
                    old(self).spec_specific(),
                    old(self).spec_excluded(),
                ).to_multiset()
                &&& sorted_lists(list_views(lists@))
            },
    {
        if crate::ip::parse_ipv4(ip).is_none() {
            return BeginCheck::Invalid;
        }
        proof {
            crate::ip::lemma_ipv4_literal_shape(ip@);
        }
        match ip_to_dnsbl_format(ip) {
            Err(_) => unreached(),
            Ok(reversed) => {
                match self.cache_manager.get(ip, now) {
                    Some(v) => BeginCheck::Cached(v),
                    None => {
                        let borrowed = self.lists.get_lists_by_priority(
                            self.config.specific_lists.as_slice(),
                            self.config.excluded_lists.as_slice(),
                        );
                        let mut lists: Vec<DnsblList> = Vec::new();
                        let n = borrowed.len();
                        let mut i: usize = 0;
                        while i < n
                            invariant
                                n == borrowed@.len(),
                                0 <= i <= n,
                                lists@.len() == i,
                                forall|j: int|
                                    0 <= j < i ==> #[trigger] lists@[j]@ == borrowed@[j]@,
                            decreases n - i,
                        {
                            lists.push(borrowed[i].clone());
                            i = i + 1;
                        }
                        proof {
                            assert(list_views(lists@) =~= ref_views(borrowed@));
                        }
                        BeginCheck::Query { reversed, lists }
                    },
                }
            },
        }
    }

    /// Accounts one per-list result and says whether the fan-out may stop:
    /// once the listing count reaches the threshold, no further results can
    /// change the verdict, so pending queries may be abandoned.
    pub fn absorb_result(&self, results: &mut DnsblCheckResults, result: DnsblResult) -> (stop:
        bool)
        requires
            old(results).listed_count < usize::MAX,
            old(results).total_checked < usize::MAX,
        ensures
            final(results).results@ == old(results).results@.push(result),
            final(results).listed_count == old(results).listed_count + if result.listed {
                1int
            } else {
                0int
            },
            final(results).total_checked == old(results).total_checked + 1,
            final(results).ip == old(results).ip,
            final(results).is_malicious == old(results).is_malicious,
            stop == (final(results).listed_count >= self.spec_threshold()),
    {
        results.add_result(result);
        results.listed_count >= self.config.malicious_threshold
    }

    /// Finishes a check: orders the per-list results by list identifier for
    /// a deterministic verdict, decides maliciousness against the
    /// threshold, and caches the verdict (malicious ones twice as long).
    pub fn finish_check(&mut self, results: DnsblCheckResults, now: u64) -> (r: DnsblCheckResults)
        requires
            old(self).wf(),
        ensures
            final(self).wf(),
            final(self).lists_view() == old(self).lists_view(),
            final(self).spec_threshold() == old(self).spec_threshold(),
            final(self).spec_cache_ttl_secs() == old(self).spec_cache_ttl_secs(),
            r.ip == results.ip,
            r.listed_count == results.listed_count,
            r.total_checked == results.total_checked,
            r.total_time_ms == results.total_time_ms,
            r.is_malicious == (results.listed_count >= old(self).spec_threshold()),
            result_views(r.results@).to_multiset() == result_views(results.results@).to_multiset(),
            sorted_results(result_views(r.results@)),
            find_entry(final(self).entries(), r.ip@) == Some(
                CacheEntryView {
                    results: r@,
                    created_at: now,
                    expires_at: sat_add(
                        now,
                        manager_ttl_ms(old(self).spec_cache_ttl_secs(), r.is_malicious),
                    ),
                    last_accessed: now,
                },
            ),
    {
        let DnsblCheckResults { ip, results: raw, listed_count, total_checked, total_time_ms, .. } =
            results;
        let sorted = sort_results(raw);
        let mut r = DnsblCheckResults {
            ip,
            results: sorted,
            listed_count,
            total_checked,
            total_time_ms,
            is_malicious: false,
        };
        r.update_malicious_status(self.config.malicious_threshold);
        let key = r.ip.clone();
        let copy = r.clone();
        self.cache_manager.put(key, copy, now);
        r
    }

    /// The policy in force.
    pub fn get_config(&self) -> (r: &DnsblConfig)
        ensures
            r.malicious_threshold == self.spec_threshold(),
            string_views(r.specific_lists@) == self.spec_specific(),
            string_views(r.excluded_lists@) == self.spec_excluded(),
    {
        &self.config
    }

    /// Replaces the policy; the cache and its lifetimes stay as they were.
    pub fn update_config(&mut self, config: DnsblConfig)
        requires
            old(self).wf(),
        ensures
            final(self).wf(),
            final(self).entries() == old(self).entries(),
            final(self).lists_view() == old(self).lists_view(),
            final(self).spec_threshold() == config.malicious_threshold,
            final(self).spec_specific() == string_views(config.specific_lists@),
            final(self).spec_excluded() == string_views(config.excluded_lists@),
    {
        self.config = config;
        proof {
            assert(self.spec_specific() =~= string_views(self.config.specific_lists@));
            assert(self.spec_excluded() =~= string_views(self.config.excluded_lists@));
        }
    }

    /// Statistics about the known lists.
    pub fn get_lists_stats(&self) -> (r: DnsblStats)
        ensures
            r.total_lists == self.lists_view().len(),
    {
        self.lists.get_stats()
    }

    /// The cache's counters.
    pub fn get_cache_stats(&self) -> (r: &CacheStats)
        ensures
            *r == self.spec_cache_stats(),
    {
        self.cache_manager.get_stats()
    }

    /// Sweeps dead entries out of the cache now.
    pub fn cleanup_cache(&mut self, now: u64)
        requires
            old(self).wf(),
        ensures
            final(self).wf(),
            final(self).entries() == old(self).entries().filter(
                crate::dnsbl::cache::live_pred(now),
            ),
            final(self).lists_view() == old(self).lists_view(),
            final(self).spec_threshold() == old(self).spec_threshold(),
    {
        self.cache_manager.force_cleanup(now);
    }

    /// All known lists.
    pub fn get_available_lists(&self) -> (r: Vec<&DnsblList>)
        ensures
            ref_views(r@) == self.lists_view(),
    {
        self.lists.get_all()
    }

    /// The lists the policy makes effective, in consultation order.
    pub fn get_enabled_lists(&self) -> (r: Vec<&DnsblList>)
        ensures
            ref_views(r@).to_multiset() == effective_selection(
                self.lists_view(),
                self.spec_specific(),
                self.spec_excluded(),
            ).to_multiset(),
            ref_views(r@).len() == effective_selection(
                self.lists_view(),
                self.spec_specific(),
                self.spec_excluded(),
            ).len(),
            sorted_lists(ref_views(r@)),
    {
        self.lists.filter_lists(
            self.config.specific_lists.as_slice(),
            self.config.excluded_lists.as_slice(),
        )
    }

    /// Whether an address can be queried at all.
    pub fn validate_ip_format(ip: &str) -> (r: bool)
        ensures
            r == spec_valid_query_ip(ip@),
    {
        match crate::ip::parse_ipv4(ip) {
            Some(_) => true,
            None => false,
        }
    }

    /// A ready-made policy for each use case.
    pub fn get_recommended_config(use_case: DnsblUseCase) -> (r: DnsblConfig)
        ensures
            r.enabled,
            use_case is Strict ==> r.timeout_secs == 10 && r.max_concurrent == 5
                && r.cache_ttl_secs == 7200 && r.malicious_threshold == 1
                && string_views(r.specific_lists@) =~= seq!["zen"@, "spamcop"@, "dronebl"@]
                && r.excluded_lists@.len() == 0,
            use_case is Balanced ==> r.timeout_secs == 5 && r.max_concurrent == 10
                && r.cache_ttl_secs == 3600 && r.malicious_threshold == 2
                && r.specific_lists@.len() == 0 && string_views(r.excluded_lists@) =~= seq![
                "pbl"@,
            ],
            use_case is Performance ==> r.timeout_secs == 3 && r.max_concurrent == 20
                && r.cache_ttl_secs == 1800 && r.malicious_threshold == 3
                && string_views(r.specific_lists@) =~= seq!["zen"@, "barracuda"@]
                && r.excluded_lists@.len() == 0,
            use_case is Testing ==> r.timeout_secs == 1 && r.max_concurrent == 1
                && r.cache_ttl_secs == 60 && r.malicious_threshold == 1 && string_views(
                r.specific_lists@,
            ) =~= seq!["zen"@] && r.excluded_lists@.len() == 0,
    {
        match use_case {
            DnsblUseCase::Strict => {
                let mut specific: Vec<String> = Vec::new();
                specific.push("zen".to_owned());
                specific.push("spamcop".to_owned());
                specific.push("dronebl".to_owned());
                DnsblConfig {
                    enabled: true,
                    timeout_secs: 10,
                    max_concurrent: 5,
                    cache_ttl_secs: 7200,
                    malicious_threshold: 1,
                    specific_lists: specific,
                    excluded_lists: Vec::new(),
                }
            },
            DnsblUseCase::Balanced => {
                let mut excluded: Vec<String> = Vec::new();
                excluded.push("pbl".to_owned());
                DnsblConfig {
                    enabled: true,
                    timeout_secs: 5,
                    max_concurrent: 10,
                    cache_ttl_secs: 3600,
                    malicious_threshold: 2,
                    specific_lists: Vec::new(),
                    excluded_lists: excluded,
                }
            },
            DnsblUseCase::Performance => {
                let mut specific: Vec<String> = Vec::new();
                specific.push("zen".to_owned());
                specific.push("barracuda".to_owned());
                DnsblConfig {
                    enabled: true,
                    timeout_secs: 3,
                    max_concurrent: 20,
                    cache_ttl_secs: 1800,
                    malicious_threshold: 3,
                    specific_lists: specific,
                    excluded_lists: Vec::new(),
                }
            },
            DnsblUseCase::Testing => {
                let mut specific: Vec<String> = Vec::new();
                specific.push("zen".to_owned());
                DnsblConfig {
                    enabled: true,
                    timeout_secs: 1,
                    max_concurrent: 1,
                    cache_ttl_secs: 60,
                    malicious_threshold: 1,
                    specific_lists: specific,
                    excluded_lists: Vec::new(),
                }
            },
        }
    }
}

/// Use cases the ready-made policies cover.
#[derive(Debug, Clone, Copy)]
pub enum DnsblUseCase {
    /// Strict security checking: slowest, most thorough.
    Strict,
    /// Balance between security and speed.
    Balanced,
    /// Speed first, fewer lists.
    Performance,
    /// Minimal set for tests and development.
    Testing,
}

/// Aggregate picture over several verdicts.
#[derive(Debug)]
pub struct DnsblSummary {
    /// How many IPs were checked.
    pub total_ips: usize,
    /// How many were listed somewhere.
    pub listed_ips: usize,
    /// How many crossed the malicious threshold.
    pub malicious_ips: usize,
    /// How many list queries the verdicts account in all.
    pub total_lists_checked: usize,
    /// Mean check time per IP, in milliseconds.
    pub avg_response_time_ms: u64,
    /// Cache hit rate, in permille.
    pub cache_hit_permille: u32,
}

/// Keeps the verdicts that were listed somewhere.
pub open spec fn listed_pred() -> spec_fn(crate::dnsbl::DnsblCheckResultsView) -> bool {
    |v: crate::dnsbl::DnsblCheckResultsView| v.listed_count > 0
}

/// Keeps the malicious verdicts.
pub open spec fn malicious_pred() -> spec_fn(crate::dnsbl::DnsblCheckResultsView) -> bool {
    |v: crate::dnsbl::DnsblCheckResultsView| v.is_malicious
}

/// The views of a slice of verdicts.
pub open spec fn verdict_views(s: Seq<DnsblCheckResults>) -> Seq<
    crate::dnsbl::DnsblCheckResultsView,
> {
    Seq::new(s.len(), |i: int| s[i]@)
}

/// The list queries the verdicts account in all, clamped at the pointer
/// width's ceiling.
pub open spec fn spec_total_lists(s: Seq<crate::dnsbl::DnsblCheckResultsView>) -> int
    decreases s.len(),
{
    if s.len() == 0 {
        0
    } else {
        let rest = spec_total_lists(s.drop_last());
        if rest + s.last().total_checked <= usize::MAX {
            rest + s.last().total_checked
        } else {
            usize::MAX as int
        }
    }
}

/// The check time the verdicts account in all, clamped at the ceiling.
pub open spec fn spec_total_time(s: Seq<crate::dnsbl::DnsblCheckResultsView>) -> int
    decreases s.len(),
{
    if s.len() == 0 {
        0
    } else {
        let rest = spec_total_time(s.drop_last());
        if rest + s.last().total_time_ms <= u64::MAX {
            rest + s.last().total_time_ms
        } else {
            u64::MAX as int
        }
    }
}

impl DnsblChecker {
    /// Summarises verdicts: how many IPs were listed or malicious, how many
    /// list queries they account, and the mean check time (sums clamp at
    /// the integer ceiling; the mean divides the clamped sum).
    pub fn generate_summary(results: &[DnsblCheckResults], cache_hit_permille: u32) -> (r:
        DnsblSummary)
        ensures
            r.total_ips == results@.len(),
            r.listed_ips == verdict_views(results@).filter(listed_pred()).len(),
            r.malicious_ips == verdict_views(results@).filter(malicious_pred()).len(),
            r.total_lists_checked == spec_total_lists(verdict_views(results@)),
            r.avg_response_time_ms == if results@.len() > 0 {
                spec_total_time(verdict_views(results@)) / results@.len() as int
            } else {
                0
            },
            r.cache_hit_permille == cache_hit_permille,
    {
        let n = results.len();
        let mut listed_ips: usize = 0;
        let mut malicious_ips: usize = 0;
        let mut total_lists: usize = 0;
        let mut total_time: u64 = 0;
        let mut i: usize = 0;
        while i < n
            invariant
                n == results@.len(),
                0 <= i <= n,
                listed_ips == verdict_views(results@).take(i as int).filter(listed_pred()).len(),
                malicious_ips == verdict_views(results@).take(i as int).filter(
                    malicious_pred(),
                ).len(),
                total_lists == spec_total_lists(verdict_views(results@).take(i as int)),
                total_time == spec_total_time(verdict_views(results@).take(i as int)),
                listed_ips <= i,
                malicious_ips <= i,
            decreases n - i,
        {
            proof {
                reveal(Seq::filter);
                let vv = verdict_views(results@);
                assert(vv.take(i + 1).drop_last() =~= vv.take(i as int));
                assert(vv.take(i + 1).last() == vv[i as int]);
            }
            if results[i].listed_count > 0 {
                listed_ips = listed_ips + 1;
            }
            if results[i].is_malicious {
                malicious_ips = malicious_ips + 1;
            }
            total_lists = saturating_add_usize(total_lists, results[i].total_checked);
            total_time = total_time.saturating_add(results[i].total_time_ms);
            i = i + 1;
        }
        proof {
            assert(verdict_views(results@).take(n as int) =~= verdict_views(results@));
        }
        let avg = if n > 0 {
            total_time / (n as u64)
        } else {
            0
        };
        DnsblSummary {
            total_ips: n,
            listed_ips,
            malicious_ips,
            total_lists_checked: total_lists,
            avg_response_time_ms: avg,
            cache_hit_permille,
        }
    }
}

/// Pointer-width addition clamped at the integer ceiling.
fn saturating_add_usize(a: usize, b: usize) -> (r: usize)
    ensures
        r == if a + b <= usize::MAX {
            a + b
        } else {
            usize::MAX as int
        },
{
    if a > usize::MAX - b {
        usize::MAX
    } else {
        a + b
    }
}

/// Sorts per-list results by list identifier; the result holds exactly the
/// given results.
fn sort_results(v: Vec<DnsblResult>) -> (r: Vec<DnsblResult>)
    ensures
        result_views(r@).to_multiset() == result_views(v@).to_multiset(),
        sorted_results(result_views(r@)),
{
    broadcast use vstd::seq_lib::group_to_multiset_ensures;

    let mut rest = v;
    let mut out: Vec<DnsblResult> = Vec::new();
    let ghost all = result_views(rest@).to_multiset();
    while rest.len() > 0
        invariant
            result_views(out@).to_multiset().add(result_views(rest@).to_multiset()) =~= all,
            sorted_results(result_views(out@)),
            forall|i: int, j: int|
                0 <= i < out@.len() && 0 <= j < rest@.len() ==> lex_le(
                    (#[trigger] result_views(out@)[i]).list_name,
                    (#[trigger] result_views(rest@)[j]).list_name,
                ),
        decreases rest@.len(),
    {
        let mut m: usize = 0;
        let mut k: usize = 1;
        proof {
            lemma_lex_le_refl(result_views(rest@)[0].list_name);
        }
        while k < rest.len()
            invariant
                0 <= m < k <= rest@.len(),
                forall|j: int|
                    0 <= j < k ==> lex_le(
                        result_views(rest@)[m as int].list_name,
                        (#[trigger] result_views(rest@)[j]).list_name,
                    ),
            decreases rest@.len() - k,
        {
            if !str_le(rest[m].list_name.as_str(), rest[k].list_name.as_str()) {
                proof {
                    lemma_lex_le_total(rest@[m as int].list_name@, rest@[k as int].list_name@);
                    assert forall|j: int| 0 <= j < k + 1 implies lex_le(
                        result_views(rest@)[k as int].list_name,
                        (#[trigger] result_views(rest@)[j]).list_name,
                    ) by {
                        if j < k {
                            lemma_lex_le_trans(
                                result_views(rest@)[k as int].list_name,
                                result_views(rest@)[m as int].list_name,
                                result_views(rest@)[j].list_name,
                            );
                        } else {
                            lemma_lex_le_refl(result_views(rest@)[k as int].list_name);
                        }
                    }
                }
                m = k;
            }
            k = k + 1;
        }
        let ghost rest_old = rest@;
        let ghost out_old = out@;
        let x = rest.remove(m);
        out.push(x);
        proof {
            broadcast use vstd::seq_lib::group_to_multiset_ensures;

            let rv_old = result_views(rest_old);
            let rv_new = result_views(rest@);
            let ov_old = result_views(out_old);
            let ov_new = result_views(out@);
            assert(rv_new =~= rv_old.remove(m as int));
            assert(ov_new =~= ov_old.push(x@));
            rv_old.to_multiset_ensures();
            ov_old.to_multiset_ensures();
            assert(rv_old.remove(m as int).to_multiset() =~= rv_old.to_multiset().remove(
                rv_old[m as int],
            ));
            assert(ov_old.push(x@).to_multiset() =~= ov_old.to_multiset().insert(x@));
            assert(ov_new.to_multiset().add(rv_new.to_multiset()) =~= all);
            assert forall|i: int, j: int|
                0 <= i < ov_new.len() && 0 <= j < rv_new.len() implies lex_le(
                (#[trigger] ov_new[i]).list_name,
                (#[trigger] rv_new[j]).list_name,
            ) by {
                let j0 = if j < m {
                    j
                } else {
                    j + 1
                };
                assert(rv_new[j] == rv_old[j0]);
                if i < ov_old.len() {
                } else {
                    assert(ov_new[i] == x@);
                    assert(lex_le(rv_old[m as int].list_name, rv_old[j0].list_name));
                }
            }
            assert(sorted_results(ov_new));
        }
    }
    proof {
        broadcast use vstd::seq_lib::group_to_multiset_ensures;

        assert(result_views(rest@).to_multiset() =~= Multiset::empty());
        assert(result_views(out@).to_multiset() =~= all);
    }
    out
}

/// The order on strings is reflexive.
proof fn lemma_lex_le_refl(a: Seq<char>)
    ensures
        lex_le(a, a),
    decreases a.len(),
{
    if a.len() > 0 {
        lemma_lex_le_refl(a.drop_first());
    }
}

/// The order on strings is transitive.
proof fn lemma_lex_le_trans(a: Seq<char>, b: Seq<char>, c: Seq<char>)
    requires
        lex_le(a, b),
        lex_le(b, c),
    ensures
        lex_le(a, c),
    decreases a.len(),
{
    if a.len() > 0 && b.len() > 0 && c.len() > 0 {
        if a[0] as u32 == b[0] as u32 && b[0] as u32 == c[0] as u32 {
            lemma_lex_le_trans(a.drop_first(), b.drop_first(), c.drop_first());
        }
    }
}

} // verus!
