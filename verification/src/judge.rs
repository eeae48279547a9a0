//! Probe endpoints ("judges") and their health ranking. The pretest's HTTP
//! requests run outside the library; what each judge answered is handed in
//! and scored here.

use vstd::prelude::*;

use crate::strutil::{
    contains_char, contains_seq, contains_str, count_occurrences, count_occurrences_upto,
    lower_of, lowercase, str_eq,
};
use vstd::string::StrSliceExecFns;
use vstd::string::StringExecFns;

verus! {

/// A probe endpoint and its measured health.
#[derive(Debug)]
pub struct JudgeInfo {
    /// The judge's URL or SMTP address.
    pub url: String,
    /// The judge's host.
    pub host: String,
    /// The judge's scheme, upper-cased.
    pub scheme: String,
    /// Whether the pretest found the judge usable.
    pub is_working: bool,
    /// The pretest's round trip, in milliseconds.
    pub response_time_ms: u64,
    /// Fraction of successful probes, in permille.
    pub success_rate_permille: u32,
    /// How often the echo mentioned `via`.
    pub marks_via: usize,
    /// How often the echo mentioned `proxy`.
    pub marks_proxy: usize,
}

impl Clone for JudgeInfo {
    fn clone(&self) -> (res: Self)
        ensures
            res.url@ == self.url@,
            res.host@ == self.host@,
            res.scheme@ == self.scheme@,
            res.is_working == self.is_working,
            res.response_time_ms == self.response_time_ms,
            res.success_rate_permille == self.success_rate_permille,
            res.marks_via == self.marks_via,
            res.marks_proxy == self.marks_proxy,
    {
        JudgeInfo {
            url: self.url.clone(),
            host: self.host.clone(),
            scheme: self.scheme.clone(),
            is_working: self.is_working,
            response_time_ms: self.response_time_ms,
            success_rate_permille: self.success_rate_permille,
            marks_via: self.marks_via,
            marks_proxy: self.marks_proxy,
        }
    }
}

/// A judge's health in thousandths: the speed score `1000 / seconds`,
/// capped at ten, times the success rate — zero for a judge that does not
/// work.
pub open spec fn spec_health_millis(j: JudgeInfo) -> int {
    if !j.is_working {
        0
    } else {
        let ms = if j.response_time_ms == 0 {
            1int
        } else {
            j.response_time_ms as int
        };
        let time_score_millis: int = if 1000000int / ms > 10000 {
            10000int
        } else {
            1000000int / ms
        };
        time_score_millis * j.success_rate_permille / 1000
    }
}

impl JudgeInfo {
    /// The judge's health, in thousandths of the score.
    pub fn health_score_millis(&self) -> (r: u64)
        ensures
            r == spec_health_millis(*self),
    {
        if !self.is_working {
            return 0;
        }
        let ms: u64 = if self.response_time_ms == 0 {
            1
        } else {
            self.response_time_ms
        };
        let time_score: u64 = if 1000000 / ms > 10000 {
            10000
        } else {
            1000000 / ms
        };
        proof {
            assert(time_score * self.success_rate_permille <= 10000 * 0xffffffffu64)
                by (nonlinear_arith)
                requires
                    time_score <= 10000,
                    self.success_rate_permille <= 0xffffffffu32,
            ;
        }
        time_score * (self.success_rate_permille as u64) / 1000
    }

    /// What the pretest concludes from a judge's echo: a plain address
    /// service works when its trimmed body looks like an address — longer
    /// than seven characters with a dot in it — and a full judge works when
    /// its echo carries the machine's real external address.
    pub fn body_indicates_working(body: &str, is_ip_service: bool, real_ext_ip: &str) -> (r: bool)
        ensures
            is_ip_service ==> r == (crate::strutil::spec_trim(body@).len() > 7 && body@.contains(
                '.',
            )),
            !is_ip_service ==> r == contains_seq(lower_of(body@), lower_of(real_ext_ip@)),
    {
        if is_ip_service {
            let trimmed = crate::strutil::trim_ws(body);
            trimmed.unicode_len() > 7 && contains_char(body, '.')
        } else {
            let lb = lowercase(body);
            let lip = lowercase(real_ext_ip);
            contains_str(lb.as_str(), lip.as_str())
        }
    }

    /// How often a marker occurs in the echo.
    pub fn count_marks(body: &str, marker: &str) -> (r: usize)
        ensures
            r == count_occurrences_upto(body@, marker@, body@.len() as int),
    {
        count_occurrences(body, marker)
    }
}

/// Whether `a` ranks at least as healthy as `b`.
pub open spec fn judge_ge(a: JudgeInfo, b: JudgeInfo) -> bool {
    spec_health_millis(a) >= spec_health_millis(b)
}

/// Judges ordered healthiest first.
pub open spec fn sorted_judges(s: Seq<JudgeInfo>) -> bool {
    forall|i: int, j: int| 0 <= i <= j < s.len() ==> judge_ge(s[i], s[j])
}

/// Sorts judges by health, healthiest first; the result holds judges with
/// exactly the given healths and names, pairwise reordered.
pub fn sort_judges(v: Vec<JudgeInfo>) -> (r: Vec<JudgeInfo>)
    ensures
        r@.to_multiset() == v@.to_multiset(),
        r@.len() == v@.len(),
        sorted_judges(r@),
{
    broadcast use vstd::seq_lib::group_to_multiset_ensures;

    let mut rest = v;
    let mut out: Vec<JudgeInfo> = Vec::new();
    let ghost orig = rest@;
    while rest.len() > 0
        invariant
            out@.len() + rest@.len() == orig.len(),
            out@.to_multiset().add(rest@.to_multiset()) =~= orig.to_multiset(),
            sorted_judges(out@),
            forall|i: int, j: int|
                0 <= i < out@.len() && 0 <= j < rest@.len() ==> judge_ge(
                    #[trigger] out@[i],
                    #[trigger] rest@[j],
                ),
        decreases rest@.len(),
    {
        let mut m: usize = 0;
        let mut k: usize = 1;
        while k < rest.len()
            invariant
                0 <= m < k <= rest@.len(),
                forall|j: int| 0 <= j < k ==> judge_ge(rest@[m as int], #[trigger] rest@[j]),
            decreases rest@.len() - k,
        {
            if rest[k].health_score_millis() > rest[m].health_score_millis() {
                m = k;
            }
            k = k + 1;
        }
        let ghost rest_old = rest@;
        let ghost out_old = out@;
        proof {
            assert(forall|j: int|
                0 <= j < rest_old.len() ==> judge_ge(rest_old[m as int], #[trigger] rest_old[j]));
        }
        let x = rest.remove(m);
        out.push(x);
        proof {
            assert(rest@ =~= rest_old.remove(m as int));
            assert(out@ =~= out_old.push(x));
            rest_old.to_multiset_ensures();
            out_old.to_multiset_ensures();
            assert(rest_old.remove(m as int).to_multiset() =~= rest_old.to_multiset().remove(
                rest_old[m as int],
            ));
            assert(out_old.push(x).to_multiset() =~= out_old.to_multiset().insert(x));
            assert(out@.to_multiset().add(rest@.to_multiset()) =~= orig.to_multiset());
            assert forall|i: int, j: int|
                0 <= i < out@.len() && 0 <= j < rest@.len() implies judge_ge(
                #[trigger] out@[i],
                #[trigger] rest@[j],
            ) by {
                let j0 = if j < m {
                    j
                } else {
                    j + 1
                };
                assert(rest@[j] == rest_old[j0]);
                if i == out@.len() - 1 {
                    assert(judge_ge(rest_old[m as int], rest_old[j0]));
                }
            }
            assert(sorted_judges(out@));
        }
    }
    out
}

/// Statistics over the judges.
#[derive(Debug, Clone, Copy)]
pub struct JudgeStats {
    /// HTTP-class judges known.
    pub http_total: usize,
    /// HTTP-class judges that work.
    pub http_working: usize,
    /// SMTP-class judges known.
    pub smtp_total: usize,
    /// SMTP-class judges that work.
    pub smtp_working: usize,
    /// Mean pretest round trip of the working HTTP judges, in milliseconds.
    pub avg_response_time_ms: u64,
}

/// Keeps the judges that work.
pub open spec fn working_pred() -> spec_fn(JudgeInfo) -> bool {
    |j: JudgeInfo| j.is_working
}

/// The judges a sequence of borrowed judges stands for.
pub open spec fn jref_views(s: Seq<&JudgeInfo>) -> Seq<JudgeInfo> {
    Seq::new(s.len(), |i: int| *s[i])
}

/// The working judges of a set, in stored (rank) order, truncated at
/// `count`.
pub open spec fn spec_working_prefix(js: Seq<JudgeInfo>, count: int) -> Seq<JudgeInfo> {
    if count < js.filter(working_pred()).len() {
        js.filter(working_pred()).take(count)
    } else {
        js.filter(working_pred())
    }
}

/// Whether the protocol name belongs to the HTTP judge class.
pub open spec fn spec_http_class(protocol: Seq<char>) -> bool {
    protocol == "HTTP"@ || protocol == "HTTPS"@ || protocol == "CONNECT:80"@
}

/// Whether the protocol name belongs to the SMTP judge class.
pub open spec fn spec_smtp_class(protocol: Seq<char>) -> bool {
    protocol == "SMTP"@ || protocol == "CONNECT:25"@
}

/// No protocol name belongs to both judge classes.
proof fn lemma_classes_disjoint(protocol: Seq<char>)
    ensures
        !(spec_http_class(protocol) && spec_smtp_class(protocol)),
{
    reveal_strlit("HTTP");
    reveal_strlit("HTTPS");
    reveal_strlit("CONNECT:80");
    reveal_strlit("SMTP");
    reveal_strlit("CONNECT:25");
    assert("HTTP"@[0] == 'H' && "HTTPS"@[0] == 'H' && "CONNECT:80"@[0] == 'C');
    assert("SMTP"@[0] == 'S' && "CONNECT:25"@[8] == '2' && "CONNECT:80"@[8] == '8');
}

/// The round trips of the working judges summed, clamped at the ceiling.
pub open spec fn spec_working_time_total(s: Seq<JudgeInfo>) -> int
    decreases s.len(),
{
    if s.len() == 0 {
        0
    } else {
        let rest = spec_working_time_total(s.drop_last());
        let here: int = if s.last().is_working {
            s.last().response_time_ms as int
        } else {
            0
        };
        if rest + here <= u64::MAX {
            rest + here
        } else {
            u64::MAX as int
        }
    }
}

/// The ranked judges, one set per protocol class.
#[derive(Debug)]
pub struct JudgeManager {
    /// Judges for the HTTP protocol class, healthiest first once ranked.
    pub http_judges: Vec<JudgeInfo>,
    /// Judges for the SMTP protocol class.
    pub smtp_judges: Vec<JudgeInfo>,
}

impl JudgeManager {
    /// A manager over the given judges.
    pub fn new(http_judges: Vec<JudgeInfo>, smtp_judges: Vec<JudgeInfo>) -> (r: Self)
        ensures
            r.http_judges@ == http_judges@,
            r.smtp_judges@ == smtp_judges@,
    {
        JudgeManager { http_judges, smtp_judges }
    }

    /// Ranks the HTTP judges healthiest first.
    pub fn rank(&mut self)
        ensures
            sorted_judges(final(self).http_judges@),
            final(self).http_judges@.len() == old(self).http_judges@.len(),
            final(self).smtp_judges@ == old(self).smtp_judges@,
    {
        let mut taken: Vec<JudgeInfo> = Vec::new();
        core::mem::swap(&mut taken, &mut self.http_judges);
        let sorted = sort_judges(taken);
        self.http_judges = sorted;
    }

    /// Whether the protocol name is served by the HTTP judge class.
    fn is_http_class(protocol: &str) -> (r: bool)
        ensures
            r == (protocol@ == "HTTP"@ || protocol@ == "HTTPS"@ || protocol@ == "CONNECT:80"@),
    {
        str_eq(protocol, "HTTP") || str_eq(protocol, "HTTPS") || str_eq(protocol, "CONNECT:80")
    }

    /// Whether the protocol name is served by the SMTP judge class.
    fn is_smtp_class(protocol: &str) -> (r: bool)
        ensures
            r == (protocol@ == "SMTP"@ || protocol@ == "CONNECT:25"@),
    {
        str_eq(protocol, "SMTP") || str_eq(protocol, "CONNECT:25")
    }

    /// The first working judge of the protocol's class, if any; after
    /// ranking, that is a working judge of maximal health. An unknown
    /// protocol gets nothing.
    pub fn get_best_judge(&self, protocol: &str) -> (r: Option<&JudgeInfo>)
        ensures
            spec_http_class(protocol@) ==> (match r {
                Some(j) => exists|i: int|
                    0 <= i < self.http_judges@.len() && #[trigger] self.http_judges@[i] == *j
                        && self.http_judges@[i].is_working && (forall|k: int|
                        0 <= k < i ==> !(#[trigger] self.http_judges@[k]).is_working),
                None => forall|k: int|
                    0 <= k < self.http_judges@.len() ==> !(
                    #[trigger] self.http_judges@[k]).is_working,
            }),
            spec_smtp_class(protocol@) ==> (match r {
                Some(j) => exists|i: int|
                    0 <= i < self.smtp_judges@.len() && #[trigger] self.smtp_judges@[i] == *j
                        && self.smtp_judges@[i].is_working && (forall|k: int|
                        0 <= k < i ==> !(#[trigger] self.smtp_judges@[k]).is_working),
                None => forall|k: int|
                    0 <= k < self.smtp_judges@.len() ==> !(
                    #[trigger] self.smtp_judges@[k]).is_working,
            }),
            !spec_http_class(protocol@) && !spec_smtp_class(protocol@) ==> r is None,
            r matches Some(j) ==> j.is_working,
    {
        proof {
            lemma_classes_disjoint(protocol@);
        }
        if Self::is_http_class(protocol) {
            first_working(&self.http_judges)
        } else if Self::is_smtp_class(protocol) {
            first_working(&self.smtp_judges)
        } else {
            None
        }
    }

    /// The working judges of the protocol's class, in rank order, truncated
    /// at `count`; an unknown protocol gets none.
    pub fn get_working_judges(&self, protocol: &str, count: usize) -> (r: Vec<&JudgeInfo>)
        ensures
            spec_http_class(protocol@) ==> jref_views(r@) == spec_working_prefix(
                self.http_judges@,
                count as int,
            ),
            spec_smtp_class(protocol@) ==> jref_views(r@) == spec_working_prefix(
                self.smtp_judges@,
                count as int,
            ),
            !spec_http_class(protocol@) && !spec_smtp_class(protocol@) ==> r@.len() == 0,
            r@.len() <= count,
            forall|k: int| 0 <= k < r@.len() ==> (#[trigger] r@[k]).is_working,
    {
        proof {
            lemma_classes_disjoint(protocol@);
        }
        let judges = if Self::is_http_class(protocol) {
            &self.http_judges
        } else if Self::is_smtp_class(protocol) {
            &self.smtp_judges
        } else {
            return Vec::new();
        };
        let r = working_prefix(judges, count);
        r
    }

    /// The judge statistics: totals, working counts, and the mean round
    /// trip of the working HTTP judges.
    pub fn get_stats(&self) -> (r: JudgeStats)
        ensures
            r.http_total == self.http_judges@.len(),
            r.smtp_total == self.smtp_judges@.len(),
            r.http_working == self.http_judges@.filter(working_pred()).len(),
            r.smtp_working == self.smtp_judges@.filter(working_pred()).len(),
            r.avg_response_time_ms == if self.http_judges@.filter(working_pred()).len() > 0 {
                spec_working_time_total(self.http_judges@) / self.http_judges@.filter(
                    working_pred(),
                ).len() as int
            } else {
                0
            },
    {
        let http_working = count_working(&self.http_judges);
        let smtp_working = count_working(&self.smtp_judges);
        let n = self.http_judges.len();
        let mut total_ms: u64 = 0;
        let mut i: usize = 0;
        while i < n
            invariant
                n == self.http_judges@.len(),
                0 <= i <= n,
                total_ms == spec_working_time_total(self.http_judges@.take(i as int)),
            decreases n - i,
        {
            proof {
                let js = self.http_judges@;
                assert(js.take(i + 1).drop_last() =~= js.take(i as int));
                assert(js.take(i + 1).last() == js[i as int]);
            }
            if self.http_judges[i].is_working {
                total_ms = total_ms.saturating_add(self.http_judges[i].response_time_ms);
            }
            i = i + 1;
        }
        proof {
            assert(self.http_judges@.take(n as int) =~= self.http_judges@);
        }
        let avg = if http_working > 0 {
            total_ms / (http_working as u64)
        } else {
            0
        };
        JudgeStats {
            http_total: self.http_judges.len(),
            http_working,
            smtp_total: self.smtp_judges.len(),
            smtp_working,
            avg_response_time_ms: avg,
        }
    }
}

/// The working judges, in stored order, truncated at `count`.
fn working_prefix(judges: &Vec<JudgeInfo>, count: usize) -> (r: Vec<&JudgeInfo>)
    ensures
        jref_views(r@) == spec_working_prefix(judges@, count as int),
        r@.len() <= count,
        forall|k: int| 0 <= k < r@.len() ==> (#[trigger] r@[k]).is_working,
{
    broadcast use vstd::prelude::Seq::lemma_filter_len;

    let n = judges.len();
    let mut r: Vec<&JudgeInfo> = Vec::new();
    let mut i: usize = 0;
    while i < n
        invariant
            n == judges@.len(),
            0 <= i <= n,
            jref_views(r@) == spec_working_prefix(judges@.take(i as int), count as int),
            r@.len() <= count,
            forall|k: int| 0 <= k < r@.len() ==> (#[trigger] r@[k]).is_working,
        decreases n - i,
    {
        let ghost prev = jref_views(r@);
        proof {
            reveal(Seq::filter);
            let js = judges@;
            assert(js.take(i + 1).drop_last() =~= js.take(i as int));
            assert(js.take(i + 1).last() == js[i as int]);
        }
        if judges[i].is_working && r.len() < count {
            r.push(&judges[i]);
            proof {
                let w_i = judges@.take(i as int).filter(working_pred());
                let w_next = judges@.take(i + 1).filter(working_pred());
                assert(w_next == w_i.push(judges@[i as int]));
                assert(prev.len() < count);
                if count < w_i.len() {
                    assert(prev.len() == count);
                }
                assert(w_i.len() < count || w_i.len() == prev.len());
                assert(jref_views(r@) =~= prev.push(judges@[i as int]));
                assert(jref_views(r@) =~= spec_working_prefix(judges@.take(i + 1), count as int));
            }
        } else {
            proof {
                let w_i = judges@.take(i as int).filter(working_pred());
                let w_next = judges@.take(i + 1).filter(working_pred());
                if judges@[i as int].is_working {
                    assert(w_next == w_i.push(judges@[i as int]));
                    assert(prev.len() >= count);
                    assert(count <= w_i.len());
                    assert(w_next.take(count as int) =~= w_i.take(count as int));
                    assert(jref_views(r@) =~= spec_working_prefix(
                        judges@.take(i + 1),
                        count as int,
                    ));
                } else {
                    assert(w_next == w_i);
                    assert(jref_views(r@) =~= spec_working_prefix(
                        judges@.take(i + 1),
                        count as int,
                    ));
                }
            }
        }
        i = i + 1;
    }
    proof {
        assert(judges@.take(n as int) =~= judges@);
    }
    r
}

/// The first working judge in the vector, if any.
fn first_working(judges: &Vec<JudgeInfo>) -> (r: Option<&JudgeInfo>)
    ensures
        r matches Some(j) ==> exists|i: int|
            0 <= i < judges@.len() && #[trigger] judges@[i] == *j && judges@[i].is_working && (
            forall|k: int| 0 <= k < i ==> !(#[trigger] judges@[k]).is_working),
        r is None ==> forall|k: int|
            0 <= k < judges@.len() ==> !(#[trigger] judges@[k]).is_working,
{
    let n = judges.len();
    let mut i: usize = 0;
    while i < n
        invariant
            n == judges@.len(),
            0 <= i <= n,
            forall|k: int| 0 <= k < i ==> !(#[trigger] judges@[k]).is_working,
        decreases n - i,
    {
        if judges[i].is_working {
            return Some(&judges[i]);
        }
        i = i + 1;
    }
    None
}

/// How many judges in the vector work.
fn count_working(judges: &Vec<JudgeInfo>) -> (r: usize)
    ensures
        r == judges@.filter(working_pred()).len(),
{
    let n = judges.len();
    let mut count: usize = 0;
    let mut i: usize = 0;
    while i < n
        invariant
            n == judges@.len(),
            0 <= i <= n,
            count == judges@.take(i as int).filter(working_pred()).len(),
            count <= i,
        decreases n - i,
    {
        proof {
            reveal(Seq::filter);
            assert(judges@.take(i + 1).drop_last() =~= judges@.take(i as int));
            assert(judges@.take(i + 1).last() == judges@[i as int]);
        }
        if judges[i].is_working {
            count = count + 1;
        }
        i = i + 1;
    }
    proof {
        assert(judges@.take(n as int) =~= judges@);
    }
    count
}


/// What URL parsing yields for a given text: the URL's normalized
/// serialization, its scheme, and, when the URL has one, its host. A
/// function of the text alone.
pub uninterp spec fn url_parts_of(s: Seq<char>) -> Option<
    (Seq<char>, Seq<char>, Option<Seq<char>>),
>;

/// Relies on url::Url::parse, Url::as_str (through ToString), Url::scheme
/// and Url::host_str from the url crate: parsing either fails or yields the
/// URL's normalized serialization, scheme and optional host, all determined
/// by the text alone.
#[verifier::external_body]
fn parse_url_parts(u: &str) -> (r: Option<(String, String, Option<String>)>)
    ensures
        r is Some <==> url_parts_of(u@) is Some,
        r matches Some(p) ==> url_parts_of(u@) == Some(
            (
                p.0@,
                p.1@,
                match p.2 {
                    Some(ref h) => Some(h@),
                    None => None,
                },
            ),
        ),
{
    match url::Url::parse(u) {
        Ok(parsed) => {
            let serialized = parsed.to_string();
            let scheme = parsed.scheme().to_string();
            let host = parsed.host_str().map(|h| h.to_string());
            Some((serialized, scheme, host))
        },
        Err(_) => None,
    }
}

/// The upper-cased form of the schemes judges use; other schemes keep
/// their parsed spelling.
fn scheme_upper(scheme: String) -> (r: String)
    ensures
        r@ == spec_scheme_upper(scheme@),
{
    if str_eq(scheme.as_str(), "http") {
        "HTTP".to_owned()
    } else if str_eq(scheme.as_str(), "https") {
        "HTTPS".to_owned()
    } else if str_eq(scheme.as_str(), "smtp") {
        "SMTP".to_owned()
    } else {
        scheme
    }
}

/// The scheme spelling a judge records.
pub open spec fn spec_scheme_upper(s: Seq<char>) -> Seq<char> {
    if s == "http"@ {
        "HTTP"@
    } else if s == "https"@ {
        "HTTPS"@
    } else if s == "smtp"@ {
        "SMTP"@
    } else {
        s
    }
}

impl JudgeInfo {
    /// A judge built from its URL: the URL must parse; its normalized
    /// serialization is recorded, its scheme upper-cased, and a URL without
    /// a host records `unknown`. The judge starts unmeasured: not working,
    /// a one-second round trip, no successes, no marks.
    pub fn from_url(u: &str) -> (r: Option<JudgeInfo>)
        ensures
            r is Some <==> url_parts_of(u@) is Some,
            r matches Some(j) ==> (match url_parts_of(u@) {
                Some(p) => {
                    &&& j.url@ == p.0
                    &&& j.scheme@ == spec_scheme_upper(p.1)
                    &&& j.host@ == (match p.2 {
                        Some(h) => h,
                        None => "unknown"@,
                    })
                    &&& !j.is_working
                    &&& j.response_time_ms == 1000
                    &&& j.success_rate_permille == 0
                    &&& j.marks_via == 0
                    &&& j.marks_proxy == 0
                },
                None => false,
            }),
    {
        match parse_url_parts(u) {
            Some((serialized, scheme, host)) => {
                let host = match host {
                    Some(h) => h,
                    None => "unknown".to_owned(),
                };
                Some(
                    JudgeInfo {
                        url: serialized,
                        host,
                        scheme: scheme_upper(scheme),
                        is_working: false,
                        response_time_ms: 1000,
                        success_rate_permille: 0,
                        marks_via: 0,
                        marks_proxy: 0,
                    },
                )
            },
            None => None,
        }
    }
}


} // verus!
