//! DNS blocklist screening: per-list query results, per-IP verdicts, the
//! screening policy, and the subsystems that carry them (lists, cache,
//! checker, client-side response interpretation).

pub mod cache;
pub mod checker;
pub mod client;
pub mod lists;

use vstd::prelude::*;

verus! {

/// The kind of record a blocklist answers with.
#[derive(Debug, Clone, Copy, PartialEq, Eq, Structural)]
pub enum DnsblResponseFormat {
    /// A record in `127.0.0.x` form; any answer means listed.
    Standard,
    /// TXT record carrying the reason.
    Text,
    /// A record first, TXT as fallback.
    Both,
}

impl Default for DnsblResponseFormat {
    fn default() -> (r: Self)
        ensures
            r is Standard,
    {
        DnsblResponseFormat::Standard
    }
}

/// Mathematical image of a single per-list result.
pub ghost struct DnsblResultView {
    pub list_name: Seq<char>,
    pub listed: bool,
    pub reason: Option<Seq<char>>,
    pub response_time_ms: u64,
}

/// Outcome of checking one IP against one blocklist.
#[derive(Debug)]
pub struct DnsblResult {
    /// Identifier of the list that was queried.
    pub list_name: String,
    /// Whether the IP is listed there.
    pub listed: bool,
    /// Extra information from the response, or why the query failed.
    pub reason: Option<String>,
    /// How long the query took.
    pub response_time_ms: u64,
}

impl View for DnsblResult {
    type V = DnsblResultView;

    open spec fn view(&self) -> DnsblResultView {
        DnsblResultView {
            list_name: self.list_name@,
            listed: self.listed,
            reason: match self.reason {
                Some(s) => Some(s@),
                None => None,
            },
            response_time_ms: self.response_time_ms,
        }
    }
}

impl Clone for DnsblResult {
    fn clone(&self) -> (res: Self)
        ensures
            res@ == self@,
    {
        DnsblResult {
            list_name: self.list_name.clone(),
            listed: self.listed,
            reason: match &self.reason {
                Some(s) => Some(s.clone()),
                None => None,
            },
            response_time_ms: self.response_time_ms,
        }
    }
}

/// Mathematical image of a complete verdict.
pub ghost struct DnsblCheckResultsView {
    pub ip: Seq<char>,
    pub results: Seq<DnsblResultView>,
    pub listed_count: int,
    pub total_checked: int,
    pub total_time_ms: int,
    pub is_malicious: bool,
}

/// Complete verdict for one IP over a set of blocklists.
#[derive(Debug)]
pub struct DnsblCheckResults {
    /// The IP address that was checked.
    pub ip: String,
    /// One entry per list consulted.
    pub results: Vec<DnsblResult>,
    /// How many lists reported the IP as listed.
    pub listed_count: usize,
    /// How many lists were consulted in all.
    pub total_checked: usize,
    /// Sum of the per-list response times.
    pub total_time_ms: u64,
    /// Whether `listed_count` reached the policy threshold.
    pub is_malicious: bool,
}

impl View for DnsblCheckResults {
    type V = DnsblCheckResultsView;

    open spec fn view(&self) -> DnsblCheckResultsView {
        DnsblCheckResultsView {
            ip: self.ip@,
            results: Seq::new(self.results@.len(), |i: int| self.results@[i]@),
            listed_count: self.listed_count as int,
            total_checked: self.total_checked as int,
            total_time_ms: self.total_time_ms as int,
            is_malicious: self.is_malicious,
        }
    }
}

impl Clone for DnsblCheckResults {
    fn clone(&self) -> (res: Self)
        ensures
            res@ == self@,
    {
        let results = self.results.clone();
        proof {
            assert forall|i: int| 0 <= i < results@.len() implies #[trigger] results@[i]@
                == self.results@[i]@ by {
                assert(cloned::<DnsblResult>(self.results@[i], results@[i]));
            }
            assert(Seq::new(results@.len(), |i: int| results@[i]@) =~= Seq::new(
                self.results@.len(),
                |i: int| self.results@[i]@,
            ));
        }
        DnsblCheckResults {
            ip: self.ip.clone(),
            results,
            listed_count: self.listed_count,
            total_checked: self.total_checked,
            total_time_ms: self.total_time_ms,
            is_malicious: self.is_malicious,
        }
    }
}

impl DnsblCheckResults {
    /// Fresh, empty verdict for the given IP.
    pub fn new(ip: String) -> (r: Self)
        ensures
            r.ip@ == ip@,
            r.results@.len() == 0,
            r.listed_count == 0,
            r.total_checked == 0,
            r.total_time_ms == 0,
            !r.is_malicious,
    {
        DnsblCheckResults {
            ip,
            results: Vec::new(),
            listed_count: 0,
            total_checked: 0,
            total_time_ms: 0,
            is_malicious: false,
        }
    }

    /// Folds one per-list result into the verdict. The result joins the
    /// list, the listed counter grows exactly when the list reported a hit,
    /// and the total time grows by the query's time, clamped at the ceiling.
    pub fn add_result(&mut self, result: DnsblResult)
        requires
            old(self).listed_count < usize::MAX,
            old(self).total_checked < usize::MAX,
        ensures
            final(self).results@ == old(self).results@.push(result),
            final(self).listed_count == old(self).listed_count + if result.listed {
                1int
            } else {
                0int
            },
            final(self).total_checked == old(self).total_checked + 1,
            final(self).total_time_ms == if old(self).total_time_ms + result.response_time_ms
                <= u64::MAX {
                old(self).total_time_ms + result.response_time_ms
            } else {
                u64::MAX as int
            },
            final(self).ip == old(self).ip,
            final(self).is_malicious == old(self).is_malicious,
    {
        if result.listed {
            self.listed_count = self.listed_count + 1;
        }
        self.total_checked = self.total_checked + 1;
        self.total_time_ms = self.total_time_ms.saturating_add(result.response_time_ms);
        self.results.push(result);
    }

    /// Marks the verdict malicious exactly when the number of listing lists
    /// has reached the policy threshold.
    pub fn update_malicious_status(&mut self, threshold: usize)
        ensures
            final(self).is_malicious == (old(self).listed_count >= threshold),
            final(self).ip == old(self).ip,
            final(self).results == old(self).results,
            final(self).listed_count == old(self).listed_count,
            final(self).total_checked == old(self).total_checked,
            final(self).total_time_ms == old(self).total_time_ms,
    {
        self.is_malicious = self.listed_count >= threshold;
    }
}

/// Screening policy: which lists to consult, how eagerly, and when a
/// verdict counts as malicious.
#[derive(Debug)]
pub struct DnsblConfig {
    /// Whether screening is performed at all.
    pub enabled: bool,
    /// Per-query deadline, in seconds.
    pub timeout_secs: u64,
    /// How many list queries may be in flight at once.
    pub max_concurrent: usize,
    /// How long verdicts stay cached, in seconds.
    pub cache_ttl_secs: u64,
    /// Listings needed before an IP counts as malicious.
    pub malicious_threshold: usize,
    /// Use exactly these lists when non-empty.
    pub specific_lists: Vec<String>,
    /// Never use these lists.
    pub excluded_lists: Vec<String>,
}

impl Clone for DnsblConfig {
    fn clone(&self) -> (res: Self)
        ensures
            res.enabled == self.enabled,
            res.timeout_secs == self.timeout_secs,
            res.max_concurrent == self.max_concurrent,
            res.cache_ttl_secs == self.cache_ttl_secs,
            res.malicious_threshold == self.malicious_threshold,
            res.specific_lists@.len() == self.specific_lists@.len(),
            forall|i: int|
                0 <= i < self.specific_lists@.len() ==> #[trigger] res.specific_lists@[i]@
                    == self.specific_lists@[i]@,
            res.excluded_lists@.len() == self.excluded_lists@.len(),
            forall|i: int|
                0 <= i < self.excluded_lists@.len() ==> #[trigger] res.excluded_lists@[i]@
                    == self.excluded_lists@[i]@,
    {
        DnsblConfig {
            enabled: self.enabled,
            timeout_secs: self.timeout_secs,
            max_concurrent: self.max_concurrent,
            cache_ttl_secs: self.cache_ttl_secs,
            malicious_threshold: self.malicious_threshold,
            specific_lists: clone_string_vec(&self.specific_lists),
            excluded_lists: clone_string_vec(&self.excluded_lists),
        }
    }
}

/// Copies a vector of strings, preserving every element's characters.
pub fn clone_string_vec(v: &Vec<String>) -> (r: Vec<String>)
    ensures
        r@.len() == v@.len(),
        forall|i: int| 0 <= i < v@.len() ==> #[trigger] r@[i]@ == v@[i]@,
{
    let mut r: Vec<String> = Vec::new();
    let mut i: usize = 0;
    while i < v.len()
        invariant
            0 <= i <= v@.len(),
            r@.len() == i,
            forall|j: int| 0 <= j < i ==> #[trigger] r@[j]@ == v@[j]@,
        decreases v@.len() - i,
    {
        r.push(v[i].clone());
        i = i + 1;
    }
    r
}

impl Default for DnsblConfig {
    /// Screening is off by default; when turned on it uses the default list
    /// set, five-second queries, an hour of caching, and a threshold of two.
    fn default() -> (r: Self)
        ensures
            !r.enabled,
            r.timeout_secs == 5,
            r.max_concurrent == 10,
            r.cache_ttl_secs == 3600,
            r.malicious_threshold == 2,
            r.specific_lists@.len() == 0,
            r.excluded_lists@.len() == 0,
    {
        DnsblConfig {
            enabled: false,
            timeout_secs: 5,
            max_concurrent: 10,
            cache_ttl_secs: 3600,
            malicious_threshold: 2,
            specific_lists: Vec::new(),
            excluded_lists: Vec::new(),
        }
    }
}

} // verus!
