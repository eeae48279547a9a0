//! The command-line surface as plain data, and its translation into the
//! library's policies. Parsing the actual command line happens outside the
//! library and hands these structures in.

use vstd::prelude::*;

use crate::dnsbl::DnsblConfig;
use crate::dnsbl::clone_string_vec;

verus! {

/// Common flags and the chosen subcommand.
#[derive(Debug)]
pub struct Cli {
    /// Concurrent proxy checks allowed.
    pub max_conn: usize,
    /// Seconds before a check gives up.
    pub timeout: usize,
    /// Logging verbosity.
    pub log_level: String,
    /// Skip the release check at start.
    pub skip_version_check: bool,
    /// The chosen subcommand.
    pub sub: Commands,
}

/// What the process was asked to do.
#[derive(Debug)]
pub enum Commands {
    /// Gather candidates without checking them.
    Grab(GrabArgs),
    /// Gather and validate candidates.
    Find(FindArgs),
    /// Run the local forwarding proxy.
    Serve(ServeArgs),
}

/// Flags of the gather-only mode.
#[derive(Debug)]
pub struct GrabArgs {
    /// Country codes candidates must come from; empty accepts any.
    pub countries: Vec<String>,
    /// Stop after this many proxies; zero means no bound.
    pub limit: usize,
    /// Output format name.
    pub format: String,
    /// Output file path text, when not writing to the console.
    pub outfile: Option<String>,
}

/// Flags of the validation mode.
#[derive(Debug)]
pub struct FindArgs {
    /// Protocol names to probe.
    pub types: Vec<String>,
    /// Files of candidates to read instead of providers.
    pub files: Vec<String>,
    /// Acceptable anonymity class names; empty accepts any.
    pub levels: Vec<String>,
    /// Probes allowed per (candidate, protocol) pair.
    pub max_tries: usize,
    /// Demand cookie support.
    pub support_cookies: bool,
    /// Demand referer support.
    pub support_referer: bool,
    /// Screen candidates against blocklists.
    pub dnsbl_check: bool,
    /// Blocklist query deadline, in seconds.
    pub dnsbl_timeout_secs: u64,
    /// Concurrent blocklist queries allowed.
    pub dnsbl_max_concurrent: usize,
    /// Verdict cache lifetime, in seconds.
    pub dnsbl_cache_ttl_secs: u64,
    /// Listings needed before a candidate counts as malicious.
    pub dnsbl_malicious_threshold: usize,
    /// Use exactly these lists when non-empty.
    pub dnsbl_specific_lists: Vec<String>,
    /// Never use these lists.
    pub dnsbl_excluded_lists: Vec<String>,
    /// Country codes candidates must come from; empty accepts any.
    pub countries: Vec<String>,
    /// Stop after this many proxies; zero means no bound.
    pub limit: usize,
    /// Output format name.
    pub format: String,
    /// Output file path text, when not writing to the console.
    pub outfile: Option<String>,
}

/// Flags of the forwarding-server mode.
#[derive(Debug)]
pub struct ServeArgs {
    /// Host the server listens on.
    pub host: String,
    /// Port the server listens on.
    pub port: u16,
    /// Protocol names to probe.
    pub types: Vec<String>,
    /// Files of candidates to read instead of providers.
    pub files: Vec<String>,
    /// Acceptable anonymity class names; empty accepts any.
    pub levels: Vec<String>,
    /// Probes allowed per (candidate, protocol) pair.
    pub max_tries: usize,
    /// Screen candidates against blocklists.
    pub dnsbl_check: bool,
    /// Blocklist query deadline, in seconds.
    pub dnsbl_timeout_secs: u64,
    /// Concurrent blocklist queries allowed.
    pub dnsbl_max_concurrent: usize,
    /// Verdict cache lifetime, in seconds.
    pub dnsbl_cache_ttl_secs: u64,
    /// Listings needed before a candidate counts as malicious.
    pub dnsbl_malicious_threshold: usize,
    /// Use exactly these lists when non-empty.
    pub dnsbl_specific_lists: Vec<String>,
    /// Never use these lists.
    pub dnsbl_excluded_lists: Vec<String>,
    /// Country codes candidates must come from; empty accepts any.
    pub countries: Vec<String>,
    /// Mean-latency ceiling for pool eligibility, in milliseconds.
    pub max_avg_resp_time: u32,
}

impl FindArgs {
    /// The screening policy the flags ask for: enabled, with the flags'
    /// deadline, fan-out, lifetime, threshold and list choices.
    pub fn to_dnsbl_config(&self) -> (r: DnsblConfig)
        ensures
            r.enabled,
            r.timeout_secs == self.dnsbl_timeout_secs,
            r.max_concurrent == self.dnsbl_max_concurrent,
            r.cache_ttl_secs == self.dnsbl_cache_ttl_secs,
            r.malicious_threshold == self.dnsbl_malicious_threshold,
            crate::strutil::string_views(r.specific_lists@) == crate::strutil::string_views(
                self.dnsbl_specific_lists@,
            ),
            crate::strutil::string_views(r.excluded_lists@) == crate::strutil::string_views(
                self.dnsbl_excluded_lists@,
            ),
    {
        let r = DnsblConfig {
            enabled: true,
            timeout_secs: self.dnsbl_timeout_secs,
            max_concurrent: self.dnsbl_max_concurrent,
            cache_ttl_secs: self.dnsbl_cache_ttl_secs,
            malicious_threshold: self.dnsbl_malicious_threshold,
            specific_lists: clone_string_vec(&self.dnsbl_specific_lists),
            excluded_lists: clone_string_vec(&self.dnsbl_excluded_lists),
        };
        proof {
            assert(crate::strutil::string_views(r.specific_lists@)
                =~= crate::strutil::string_views(self.dnsbl_specific_lists@));
            assert(crate::strutil::string_views(r.excluded_lists@)
                =~= crate::strutil::string_views(self.dnsbl_excluded_lists@));
        }
        r
    }
}

impl ServeArgs {
    /// The screening policy the flags ask for.
    pub fn to_dnsbl_config(&self) -> (r: DnsblConfig)
        ensures
            r.enabled,
            r.timeout_secs == self.dnsbl_timeout_secs,
            r.max_concurrent == self.dnsbl_max_concurrent,
            r.cache_ttl_secs == self.dnsbl_cache_ttl_secs,
            r.malicious_threshold == self.dnsbl_malicious_threshold,
            crate::strutil::string_views(r.specific_lists@) == crate::strutil::string_views(
                self.dnsbl_specific_lists@,
            ),
            crate::strutil::string_views(r.excluded_lists@) == crate::strutil::string_views(
                self.dnsbl_excluded_lists@,
            ),
    {
        let r = DnsblConfig {
            enabled: true,
            timeout_secs: self.dnsbl_timeout_secs,
            max_concurrent: self.dnsbl_max_concurrent,
            cache_ttl_secs: self.dnsbl_cache_ttl_secs,
            malicious_threshold: self.dnsbl_malicious_threshold,
            specific_lists: clone_string_vec(&self.dnsbl_specific_lists),
            excluded_lists: clone_string_vec(&self.dnsbl_excluded_lists),
        };
        proof {
            assert(crate::strutil::string_views(r.specific_lists@)
                =~= crate::strutil::string_views(self.dnsbl_specific_lists@));
            assert(crate::strutil::string_views(r.excluded_lists@)
                =~= crate::strutil::string_views(self.dnsbl_excluded_lists@));
        }
        r
    }
}

} // verus!
