//! The validation engine's decisions: candidate admission before any
//! network work, the probe schedule per candidate, anonymity classification
//! of a judge's echo, and assembly of the qualified proxy record. The
//! probes themselves — TCP dials and negotiations — run outside the
//! library and feed their outcomes back in.

use vstd::prelude::*;

use crate::dnsbl::DnsblConfig;
use crate::resolver::GeoData;
use crate::server::proxy_pool::{AnonymityLevel, DnsblSafety, Protocol, Proxy};
use crate::strutil::{
    contains_seq, contains_str, contains_string, lower_of, lowercase, string_views,
};

verus! {

/// Why a candidate is turned away before any probe.
#[derive(Debug, Clone, Copy, PartialEq, Eq, Structural)]
pub enum CandidateError {
    /// Port zero can never be connected to.
    PortZero,
    /// The port does not fit the sixteen-bit range.
    PortOutOfRange,
}

/// Validates a candidate's port before any network work: only ports in
/// `1..=65535` pass.
pub fn validate_candidate_port(port: u32) -> (r: Result<u16, CandidateError>)
    ensures
        r is Ok <==> 1 <= port <= 65535,
        r matches Ok(p) ==> p == port,
        r matches Err(e) ==> e == (if port == 0 {
            CandidateError::PortZero
        } else {
            CandidateError::PortOutOfRange
        }),
{
    if port == 0 {
        Err(CandidateError::PortZero)
    } else if port > 65535 {
        Err(CandidateError::PortOutOfRange)
    } else {
        Ok(port as u16)
    }
}

/// The probes one candidate gets: for each expected protocol, one probe per
/// permitted try, protocol-major.
pub open spec fn spec_schedule(protos: Seq<Protocol>, max_tries: int) -> Seq<(Protocol, int)> {
    Seq::new((protos.len() * max_tries) as nat, |k: int| (protos[k / max_tries], k % max_tries))
}

/// Builds the probe schedule: probe `k` targets protocol `k / max_tries`
/// with try number `k % max_tries`, so each (candidate, protocol) pair gets
/// exactly `max_tries` probes.
pub fn probe_schedule(protos: &Vec<Protocol>, max_tries: usize) -> (r: Vec<(Protocol, usize)>)
    requires
        max_tries >= 1,
        protos@.len() * max_tries <= usize::MAX,
    ensures
        r@.len() == protos@.len() * max_tries,
        forall|k: int|
            0 <= k < r@.len() ==> #[trigger] r@[k] == (
                protos@[k / (max_tries as int)],
                (k % (max_tries as int)) as usize,
            ),
{
    let n = protos.len();
    let mut r: Vec<(Protocol, usize)> = Vec::new();
    let mut i: usize = 0;
    while i < n
        invariant
            n == protos@.len(),
            max_tries >= 1,
            n * max_tries <= usize::MAX,
            0 <= i <= n,
            r@.len() == i * max_tries,
            forall|k: int|
                0 <= k < r@.len() ==> #[trigger] r@[k] == (
                    protos@[k / (max_tries as int)],
                    (k % (max_tries as int)) as usize,
                ),
        decreases n - i,
    {
        let mut t: usize = 0;
        proof {
            assert(i * max_tries + max_tries <= n * max_tries) by (nonlinear_arith)
                requires
                    i < n,
                    max_tries >= 1,
            ;
        }
        while t < max_tries
            invariant
                n == protos@.len(),
                max_tries >= 1,
                n * max_tries <= usize::MAX,
                0 <= i < n,
                0 <= t <= max_tries,
                i * max_tries + max_tries <= n * max_tries,
                r@.len() == i * max_tries + t,
                forall|k: int|
                    0 <= k < r@.len() ==> #[trigger] r@[k] == (
                        protos@[k / (max_tries as int)],
                        (k % (max_tries as int)) as usize,
                    ),
            decreases max_tries - t,
        {
            r.push((protos[i], t));
            proof {
                let k = r@.len() - 1;
                assert(k == i * max_tries + t);
                assert(k / (max_tries as int) == i && k % (max_tries as int) == t)
                    by (nonlinear_arith)
                    requires
                        k == i * max_tries + t,
                        0 <= t < max_tries,
                        i >= 0,
                ;
            }
            t = t + 1;
        }
        proof {
            assert((i + 1) * max_tries == i * max_tries + max_tries) by (nonlinear_arith);
        }
        i = i + 1;
    }
    proof {
        assert(r@.len() == n * max_tries);
    }
    r
}

/// With a single permitted try, the schedule is exactly one probe per
/// expected protocol, in protocol order.
pub proof fn lemma_single_try_schedule(protos: Seq<Protocol>)
    ensures
        spec_schedule(protos, 1) =~= Seq::new(protos.len(), |k: int| (protos[k], 0int)),
{
}

/// The anonymity class a judge's echo reveals, over the lowercased text:
/// the candidate is transparent when the echo carries the client's real
/// address, anonymous when it carries proxy markers instead, high
/// otherwise.
pub open spec fn spec_anonymity(body: Seq<char>, real_ip: Seq<char>) -> AnonymityLevel {
    if contains_seq(lower_of(body), lower_of(real_ip)) {
        AnonymityLevel::Transparent
    } else if contains_seq(lower_of(body), "via"@) || contains_seq(
        lower_of(body),
        "x-forwarded-for"@,
    ) {
        AnonymityLevel::Anonymous
    } else {
        AnonymityLevel::High
    }
}

/// Classifies a judge's echo.
pub fn classify_anonymity(body: &str, real_ip: &str) -> (r: AnonymityLevel)
    ensures
        r == spec_anonymity(body@, real_ip@),
{
    let lb = lowercase(body);
    let lip = lowercase(real_ip);
    if contains_str(lb.as_str(), lip.as_str()) {
        AnonymityLevel::Transparent
    } else if contains_str(lb.as_str(), "via") || contains_str(lb.as_str(), "x-forwarded-for") {
        AnonymityLevel::Anonymous
    } else {
        AnonymityLevel::High
    }
}

/// The name an anonymity class goes by in policies.
pub fn anonymity_name(level: &AnonymityLevel) -> (r: &'static str)
    ensures
        r@ == match *level {
            AnonymityLevel::Transparent => "Transparent"@,
            AnonymityLevel::Anonymous => "Anonymous"@,
            AnonymityLevel::High => "High"@,
            AnonymityLevel::Unknown => "Unknown"@,
        },
{
    match level {
        AnonymityLevel::Transparent => "Transparent",
        AnonymityLevel::Anonymous => "Anonymous",
        AnonymityLevel::High => "High",
        AnonymityLevel::Unknown => "Unknown",
    }
}

/// What one probe observed.
#[derive(Debug, Clone, Copy)]
pub struct ProbeOutcome {
    /// The protocol the probe negotiated.
    pub protocol: Protocol,
    /// Whether the negotiation was granted.
    pub success: bool,
    /// The probe's round trip, in milliseconds.
    pub latency_ms: u64,
    /// The anonymity class observed, for HTTP probes.
    pub anonymity: AnonymityLevel,
}

/// Whether a protocol passes the policy's protocol list: an empty list
/// admits any.
pub open spec fn spec_allowed_protocol(p: Protocol, allowed: Seq<Protocol>) -> bool {
    allowed.len() == 0 || allowed.contains(p)
}

/// The policy-admitted protocols among the successful outcomes, first
/// occurrences in order.
pub open spec fn spec_ok_protocols(outcomes: Seq<ProbeOutcome>, allowed: Seq<Protocol>) -> Seq<
    Protocol,
>
    decreases outcomes.len(),
{
    if outcomes.len() == 0 {
        Seq::empty()
    } else {
        let rest = spec_ok_protocols(outcomes.drop_last(), allowed);
        if outcomes.last().success && spec_allowed_protocol(outcomes.last().protocol, allowed)
            && !rest.contains(outcomes.last().protocol) {
            rest.push(outcomes.last().protocol)
        } else {
            rest
        }
    }
}

/// Every admitted protocol passes the policy's list.
proof fn lemma_ok_protocols_allowed(outcomes: Seq<ProbeOutcome>, allowed: Seq<Protocol>)
    ensures
        forall|k: int|
            0 <= k < spec_ok_protocols(outcomes, allowed).len() ==> spec_allowed_protocol(
                #[trigger] spec_ok_protocols(outcomes, allowed)[k],
                allowed,
            ),
    decreases outcomes.len(),
{
    if outcomes.len() > 0 {
        lemma_ok_protocols_allowed(outcomes.drop_last(), allowed);
        let rest = spec_ok_protocols(outcomes.drop_last(), allowed);
        let whole = spec_ok_protocols(outcomes, allowed);
        assert forall|k: int| 0 <= k < whole.len() implies spec_allowed_protocol(
            #[trigger] whole[k],
            allowed,
        ) by {
            if k < rest.len() {
                assert(whole[k] == rest[k]);
            }
        }
    }
}

/// The round trips of the successful, policy-admitted outcomes, in order.
pub open spec fn spec_ok_latencies(outcomes: Seq<ProbeOutcome>, allowed: Seq<Protocol>) -> Seq<u64>
    decreases outcomes.len(),
{
    if outcomes.len() == 0 {
        Seq::empty()
    } else {
        let rest = spec_ok_latencies(outcomes.drop_last(), allowed);
        if outcomes.last().success && spec_allowed_protocol(outcomes.last().protocol, allowed) {
            rest.push(outcomes.last().latency_ms)
        } else {
            rest
        }
    }
}

/// The validation policy: what is probed, what qualifies, and how the
/// screening policy is set.
#[derive(Debug)]
pub struct Checker {
    /// Probes allowed per (candidate, protocol) pair.
    pub max_tries: usize,
    /// Per-probe deadline, in seconds.
    pub timeout: u64,
    /// Demand cookie support.
    pub support_cookie: bool,
    /// Demand referer support.
    pub support_referer: bool,
    /// Protocol names to probe.
    pub expected_types: Vec<String>,
    /// Acceptable anonymity class names; empty accepts any.
    pub expected_levels: Vec<String>,
    /// Acceptable country codes; empty accepts any.
    pub expected_countries: Vec<String>,
    /// The machine's external address, as the judges see it.
    pub ext_ip: String,
    /// Whether candidates are screened against blocklists.
    pub dnsbl_enabled: bool,
    /// The screening policy when screening is on.
    pub dnsbl_config: DnsblConfig,
}

impl Checker {
    /// A policy with one try, an eight-second deadline, nothing demanded,
    /// and screening off.
    pub fn new() -> (r: Self)
        ensures
            r.max_tries == 1,
            r.timeout == 8,
            !r.support_cookie,
            !r.support_referer,
            r.expected_types@.len() == 0,
            r.expected_levels@.len() == 0,
            r.expected_countries@.len() == 0,
            !r.dnsbl_enabled,
    {
        Checker {
            max_tries: 1,
            timeout: 8,
            support_cookie: false,
            support_referer: false,
            expected_types: Vec::new(),
            expected_levels: Vec::new(),
            expected_countries: Vec::new(),
            ext_ip: String::new(),
            dnsbl_enabled: false,
            dnsbl_config: DnsblConfig::default(),
        }
    }

    /// Turns screening on under the given policy.
    pub fn enable_dnsbl(&mut self, config: DnsblConfig)
        ensures
            final(self).dnsbl_enabled,
            final(self).dnsbl_config == config,
            final(self).max_tries == old(self).max_tries,
            final(self).expected_types == old(self).expected_types,
            final(self).expected_levels == old(self).expected_levels,
            final(self).expected_countries == old(self).expected_countries,
    {
        self.dnsbl_enabled = true;
        self.dnsbl_config = config;
    }

    /// Whether a candidate's country passes the policy: any country does
    /// when none is demanded.
    pub fn country_acceptable(&self, iso_code: &str) -> (r: bool)
        ensures
            r == (self.expected_countries@.len() == 0 || string_views(
                self.expected_countries@,
            ).contains(iso_code@)),
    {
        self.expected_countries.len() == 0 || contains_string(
            self.expected_countries.as_slice(),
            iso_code,
        )
    }

    /// Whether an observed anonymity class passes the policy: any class
    /// does when none is demanded.
    pub fn level_acceptable(&self, level: &AnonymityLevel) -> (r: bool)
        ensures
            r == (self.expected_levels@.len() == 0 || string_views(self.expected_levels@).contains(
                match *level {
                    AnonymityLevel::Transparent => "Transparent"@,
                    AnonymityLevel::Anonymous => "Anonymous"@,
                    AnonymityLevel::High => "High"@,
                    AnonymityLevel::Unknown => "Unknown"@,
                },
            )),
    {
        self.expected_levels.len() == 0 || contains_string(
            self.expected_levels.as_slice(),
            anonymity_name(level),
        )
    }

    /// Assembles the qualified record from a candidate's probe outcomes: a
    /// record appears exactly when some policy-admitted probe succeeded,
    /// the anonymity observed for HTTP passes the policy, and cookie and
    /// referer support, where demanded, were observed. Its verified
    /// protocols are the distinct successful policy-admitted ones, so they
    /// are never empty and always within the policy's protocol list.
    pub fn assemble_proxy(
        &self,
        host: String,
        port: u16,
        geo: GeoData,
        outcomes: &Vec<ProbeOutcome>,
        http_anonymity: AnonymityLevel,
        cookies_supported: bool,
        referer_supported: bool,
        dnsbl_safe: DnsblSafety,
        now: u64,
    ) -> (r: Option<Proxy>)
        ensures
            r is Some <==> spec_ok_protocols(
                outcomes@,
                spec_parse_protocols(string_views(self.expected_types@)),
            ).len() > 0 && (self.expected_levels@.len() == 0 || !spec_ok_protocols(
                outcomes@,
                spec_parse_protocols(string_views(self.expected_types@)),
            ).contains(Protocol::Http) || string_views(self.expected_levels@).contains(
                match http_anonymity {
                    AnonymityLevel::Transparent => "Transparent"@,
                    AnonymityLevel::Anonymous => "Anonymous"@,
                    AnonymityLevel::High => "High"@,
                    AnonymityLevel::Unknown => "Unknown"@,
                },
            )) && (self.support_cookie ==> cookies_supported) && (self.support_referer
                ==> referer_supported),
            r matches Some(p) ==> {
                &&& p.host@ == host@
                &&& p.port == port
                &&& p.verified_protocols@ == spec_ok_protocols(
                    outcomes@,
                    spec_parse_protocols(string_views(self.expected_types@)),
                )
                &&& p.verified_protocols@.len() > 0
                &&& (forall|k: int|
                    0 <= k < p.verified_protocols@.len() ==> spec_allowed_protocol(
                        #[trigger] p.verified_protocols@[k],
                        spec_parse_protocols(string_views(self.expected_types@)),
                    ))
                &&& p.latency_samples_ms@ == spec_ok_latencies(
                    outcomes@,
                    spec_parse_protocols(string_views(self.expected_types@)),
                )
                &&& p.anonymity == http_anonymity
                &&& p.dnsbl_safe == dnsbl_safe
                &&& p.created_at == now
                &&& p.request_count == 0
                &&& p.error_count == 0
            },
    {
        if (self.support_cookie && !cookies_supported) || (self.support_referer
            && !referer_supported) {
            return None;
        }
        let allowed = parse_protocols(&self.expected_types);
        let ghost allowed_spec = spec_parse_protocols(string_views(self.expected_types@));
        proof {
            assert(allowed@ == allowed_spec);
        }
        let mut protocols: Vec<Protocol> = Vec::new();
        let n = outcomes.len();
        let mut i: usize = 0;
        while i < n
            invariant
                n == outcomes@.len(),
                0 <= i <= n,
                allowed@ == allowed_spec,
                protocols@ == spec_ok_protocols(outcomes@.take(i as int), allowed_spec),
            decreases n - i,
        {
            proof {
                assert(outcomes@.take(i + 1).drop_last() =~= outcomes@.take(i as int));
                assert(outcomes@.take(i + 1).last() == outcomes@[i as int]);
            }
            let admitted = allowed.len() == 0 || contains_protocol(&allowed, outcomes[i].protocol);
            if outcomes[i].success && admitted && !contains_protocol(
                &protocols,
                outcomes[i].protocol,
            ) {
                protocols.push(outcomes[i].protocol);
            }
            i = i + 1;
        }
        proof {
            assert(outcomes@.take(n as int) =~= outcomes@);
        }
        if protocols.len() == 0 {
            return None;
        }
        let http_ok = if contains_protocol(&protocols, Protocol::Http) {
            self.level_acceptable(&http_anonymity)
        } else {
            true
        };
        if !http_ok {
            return None;
        }
        let mut latency_samples: Vec<u64> = Vec::new();
        let mut total: u64 = 0;
        let mut k: usize = 0;
        while k < n
            invariant
                n == outcomes@.len(),
                0 <= k <= n,
                allowed@ == allowed_spec,
                latency_samples@ == spec_ok_latencies(outcomes@.take(k as int), allowed_spec),
            decreases n - k,
        {
            proof {
                assert(outcomes@.take(k + 1).drop_last() =~= outcomes@.take(k as int));
                assert(outcomes@.take(k + 1).last() == outcomes@[k as int]);
            }
            let admitted = allowed.len() == 0 || contains_protocol(&allowed, outcomes[k].protocol);
            if outcomes[k].success && admitted {
                latency_samples.push(outcomes[k].latency_ms);
                total = total.saturating_add(outcomes[k].latency_ms);
            }
            k = k + 1;
        }
        proof {
            assert(outcomes@.take(n as int) =~= outcomes@);
            lemma_ok_protocols_allowed(outcomes@, allowed_spec);
        }
        Some(
            Proxy {
                host,
                port,
                resolved_ip: None,
                geo,
                verified_protocols: protocols,
                anonymity: http_anonymity,
                latency_samples_ms: latency_samples,
                total_latency_ms: total,
                request_count: 0,
                error_count: 0,
                consecutive_failures: 0,
                last_used_at: now,
                created_at: now,
                dnsbl_safe,
            },
        )
    }

    /// Gates a candidate before any network work: its port must be usable
    /// and its country must pass the policy; nothing is dialed for a
    /// rejected candidate.
    pub fn gate_candidate(&self, port: u32, iso_code: &str) -> (r: CandidateGate)
        ensures
            r is Probe <==> 1 <= port <= 65535 && (self.expected_countries@.len() == 0
                || string_views(self.expected_countries@).contains(iso_code@)),
            r matches CandidateGate::Probe(p) ==> p == port,
            r matches CandidateGate::RejectedPort(e) ==> !(1 <= port <= 65535) && e == (if port
                == 0 {
                CandidateError::PortZero
            } else {
                CandidateError::PortOutOfRange
            }),
            r is RejectedCountry <==> 1 <= port <= 65535 && !(self.expected_countries@.len() == 0
                || string_views(self.expected_countries@).contains(iso_code@)),
    {
        match validate_candidate_port(port) {
            Err(e) => CandidateGate::RejectedPort(e),
            Ok(p) => {
                if self.country_acceptable(iso_code) {
                    CandidateGate::Probe(p)
                } else {
                    CandidateGate::RejectedCountry
                }
            },
        }
    }
}

/// How the pre-probe gate decides a candidate.
#[derive(Debug, Clone, Copy, PartialEq, Eq, Structural)]
pub enum CandidateGate {
    /// The candidate may be probed, on this port.
    Probe(u16),
    /// The port is unusable.
    RejectedPort(CandidateError),
    /// The candidate's country fails the policy.
    RejectedCountry,
}

/// What a judge's echo says about cookie and referer support: the folded
/// echo mentions the respective header.
pub fn derive_support(body: &str) -> (r: (bool, bool))
    ensures
        r.0 == contains_seq(lower_of(body@), "cookie"@),
        r.1 == contains_seq(lower_of(body@), "referer"@),
{
    let lb = lowercase(body);
    let cookies = contains_str(lb.as_str(), "cookie");
    let referer = contains_str(lb.as_str(), "referer");
    (cookies, referer)
}


/// Whether the protocol occurs in the vector.
fn contains_protocol(protos: &Vec<Protocol>, p: Protocol) -> (r: bool)
    ensures
        r == protos@.contains(p),
{
    let n = protos.len();
    let mut i: usize = 0;
    while i < n
        invariant
            n == protos@.len(),
            0 <= i <= n,
            forall|j: int| 0 <= j < i ==> protos@[j] != p,
        decreases n - i,
    {
        if protos[i] == p {
            return true;
        }
        i = i + 1;
    }
    proof {
        if protos@.contains(p) {
            let j = choose|j: int| 0 <= j < protos@.len() && protos@[j] == p;
        }
    }
    false
}

/// Parses the expected protocol names, skipping unknown ones.
pub fn parse_protocols(names: &Vec<String>) -> (r: Vec<Protocol>)
    ensures
        r@ == spec_parse_protocols(string_views(names@)),
{
    let n = names.len();
    let mut r: Vec<Protocol> = Vec::new();
    let mut i: usize = 0;
    while i < n
        invariant
            n == names@.len(),
            0 <= i <= n,
            r@ == spec_parse_protocols(string_views(names@).take(i as int)),
        decreases n - i,
    {
        let ghost prev = r@;
        proof {
            let nv = string_views(names@);
            assert(nv.take(i + 1).drop_last() =~= nv.take(i as int));
            assert(nv.take(i + 1).last() == nv[i as int]);
            assert(nv[i as int] == names@[i as int]@);
        }
        match Protocol::from_name(names[i].as_str()) {
            Some(p) => {
                r.push(p);
            },
            None => {},
        }
        i = i + 1;
    }
    proof {
        assert(string_views(names@).take(n as int) =~= string_views(names@));
    }
    r
}

/// The protocols the expected names stand for, unknown names skipped.
pub open spec fn spec_parse_protocols(names: Seq<Seq<char>>) -> Seq<Protocol>
    decreases names.len(),
{
    if names.len() == 0 {
        Seq::empty()
    } else {
        spec_parse_protocols(names.drop_last()) + match crate::server::proxy_pool::spec_protocol_of(
            names.last(),
        ) {
            Some(p) => seq![p],
            None => Seq::empty(),
        }
    }
}

} // verus!
