//! The built-in DNS blocklist descriptors, selection and ordering of the
//! effective list set, and the reversed-label query format for IPv4.

use vstd::prelude::*;

use crate::dnsbl::DnsblResponseFormat;
use crate::strutil::{
    contains_char, contains_string, first_dot, free_of, join_dots, join_labels, lemma_join_chars,
    lemma_join_split, lemma_split_join, split_dots, split_labels, str_eq, string_views,
};
use vstd::multiset::Multiset;
use vstd::string::StrSliceExecFns;
use vstd::string::StringExecFns;

verus! {

/// Broad kind of abuse a blocklist tracks.
#[derive(Debug, Clone, Copy, PartialEq, Eq, Structural, Hash)]
pub enum DnsblCategory {
    /// Spam sources.
    Spam,
    /// Malware distribution.
    Malware,
    /// Botnet command and control.
    Botnet,
    /// Open proxies.
    Proxy,
    /// Compromised hosts.
    Compromised,
    /// General threats.
    Threat,
    /// Reputation-based.
    Reputation,
}

/// Mathematical image of a blocklist descriptor.
pub ghost struct DnsblListView {
    pub id: Seq<char>,
    pub name: Seq<char>,
    pub zone: Seq<char>,
    pub description: Seq<char>,
    pub category: DnsblCategory,
    pub default_enabled: bool,
    pub response_format: DnsblResponseFormat,
    pub priority: u8,
    pub avg_response_time_ms: u32,
}

/// One DNS blocklist.
#[derive(Debug)]
pub struct DnsblList {
    /// Unique identifier for the list.
    pub id: String,
    /// Human-readable name.
    pub name: String,
    /// DNS zone queried for this list.
    pub zone: String,
    /// What this list tracks.
    pub description: String,
    /// Category of threats this list covers.
    pub category: DnsblCategory,
    /// Whether this list is consulted when no explicit set is given.
    pub default_enabled: bool,
    /// Expected response format.
    pub response_format: DnsblResponseFormat,
    /// Priority for ordering; lower means faster or more reliable.
    pub priority: u8,
    /// Average response time in milliseconds, the secondary ordering key.
    pub avg_response_time_ms: u32,
}

impl View for DnsblList {
    type V = DnsblListView;

    open spec fn view(&self) -> DnsblListView {
        DnsblListView {
            id: self.id@,
            name: self.name@,
            zone: self.zone@,
            description: self.description@,
            category: self.category,
            default_enabled: self.default_enabled,
            response_format: self.response_format,
            priority: self.priority,
            avg_response_time_ms: self.avg_response_time_ms,
        }
    }
}

impl Clone for DnsblList {
    fn clone(&self) -> (res: Self)
        ensures
            res@ == self@,
    {
        DnsblList {
            id: self.id.clone(),
            name: self.name.clone(),
            zone: self.zone.clone(),
            description: self.description.clone(),
            category: self.category,
            default_enabled: self.default_enabled,
            response_format: self.response_format,
            priority: self.priority,
            avg_response_time_ms: self.avg_response_time_ms,
        }
    }
}

/// The views of a sequence of borrowed lists.
pub open spec fn ref_views(s: Seq<&DnsblList>) -> Seq<DnsblListView> {
    Seq::new(s.len(), |i: int| s[i]@)
}

/// Keeps the lists that are enabled by default.
pub open spec fn enabled_pred() -> spec_fn(DnsblListView) -> bool {
    |l: DnsblListView| l.default_enabled
}

/// Keeps the lists of one category.
pub open spec fn cat_pred(c: DnsblCategory) -> spec_fn(DnsblListView) -> bool {
    |l: DnsblListView| l.category == c
}

/// Keeps the lists whose id is not among the excluded ids.
pub open spec fn not_excluded_pred(excl: Seq<Seq<char>>) -> spec_fn(DnsblListView) -> bool {
    |l: DnsblListView| !excl.contains(l.id)
}

/// Keeps the fast lists, priority three or better.
pub open spec fn fast_pred() -> spec_fn(DnsblListView) -> bool {
    |l: DnsblListView| l.priority <= 3
}

/// First list whose id matches, if any.
pub open spec fn find_by_id(ls: Seq<DnsblListView>, id: Seq<char>) -> Option<DnsblListView>
    decreases ls.len(),
{
    if ls.len() == 0 {
        None
    } else if ls[0].id == id {
        Some(ls[0])
    } else {
        find_by_id(ls.drop_first(), id)
    }
}

/// The lists selected by the given ids, in id order, skipping unknown ids.
pub open spec fn select_by_ids(ls: Seq<DnsblListView>, ids: Seq<Seq<char>>) -> Seq<DnsblListView>
    decreases ids.len(),
{
    if ids.len() == 0 {
        Seq::empty()
    } else {
        select_by_ids(ls, ids.drop_last()) + match find_by_id(ls, ids.last()) {
            Some(l) => seq![l],
            None => Seq::empty(),
        }
    }
}

/// The effective list set: the explicitly included lists when any are named,
/// else the default-enabled ones; in both cases minus the excluded ids.
pub open spec fn effective_selection(
    ls: Seq<DnsblListView>,
    chosen: Seq<Seq<char>>,
    exclude: Seq<Seq<char>>,
) -> Seq<DnsblListView> {
    let base = if chosen.len() == 0 {
        ls.filter(enabled_pred())
    } else {
        select_by_ids(ls, chosen)
    };
    base.filter(not_excluded_pred(exclude))
}

/// Ordering of lists: by priority, then by average response time.
pub open spec fn list_le(a: DnsblListView, b: DnsblListView) -> bool {
    a.priority < b.priority || (a.priority == b.priority && a.avg_response_time_ms
        <= b.avg_response_time_ms)
}

/// Whether a sequence of lists is sorted by `list_le`.
pub open spec fn sorted_lists(s: Seq<DnsblListView>) -> bool {
    forall|i: int, j: int| 0 <= i <= j < s.len() ==> list_le(s[i], s[j])
}

/// The collection of known blocklists.
#[derive(Debug)]
pub struct DnsblLists {
    lists: Vec<DnsblList>,
}

impl View for DnsblLists {
    type V = Seq<DnsblListView>;

    closed spec fn view(&self) -> Seq<DnsblListView> {
        Seq::new(self.lists@.len(), |i: int| self.lists@[i]@)
    }
}

/// The built-in descriptors, in declaration order.
pub open spec fn spec_default_lists() -> Seq<DnsblListView> {
    seq![
        DnsblListView {
            id: "zen"@,
            name: "Spamhaus ZEN"@,
            zone: "zen.spamhaus.org"@,
            description: "Combined Spamhaus lists (SBL+XBL+PBL)"@,
            category: DnsblCategory::Spam,
            default_enabled: true,
            response_format: DnsblResponseFormat::Standard,
            priority: 1,
            avg_response_time_ms: 50,
        },
        DnsblListView {
            id: "sbl"@,
            name: "Spamhaus SBL"@,
            zone: "sbl.spamhaus.org"@,
            description: "Spamhaus Block List - Verified spam sources"@,
            category: DnsblCategory::Spam,
            default_enabled: false,
            response_format: DnsblResponseFormat::Standard,
            priority: 2,
            avg_response_time_ms: 45,
        },
        DnsblListView {
            id: "xbl"@,
            name: "Spamhaus XBL"@,
            zone: "xbl.spamhaus.org"@,
            description: "Exploits Block List - Illegal 3rd party exploits"@,
            category: DnsblCategory::Malware,
            default_enabled: false,
            response_format: DnsblResponseFormat::Standard,
            priority: 2,
            avg_response_time_ms: 45,
        },
        DnsblListView {
            id: "pbl"@,
            name: "Spamhaus PBL"@,
            zone: "pbl.spamhaus.org"@,
            description: "Policy Block List - Dynamic/Residential IPs"@,
            category: DnsblCategory::Spam,
            default_enabled: false,
            response_format: DnsblResponseFormat::Standard,
            priority: 5,
            avg_response_time_ms: 40,
        },
        DnsblListView {
            id: "barracuda"@,
            name: "Barracuda Central"@,
            zone: "b.barracudacentral.org"@,
            description: "Barracuda Reputation Block List"@,
            category: DnsblCategory::Reputation,
            default_enabled: true,
            response_format: DnsblResponseFormat::Standard,
            priority: 2,
            avg_response_time_ms: 60,
        },
        DnsblListView {
            id: "dronebl"@,
            name: "DroneBL"@,
            zone: "dnsbl.dronebl.org"@,
            description: "DroneBL - Abused infected bots, spammers"@,
            category: DnsblCategory::Botnet,
            default_enabled: true,
            response_format: DnsblResponseFormat::Standard,
            priority: 2,
            avg_response_time_ms: 70,
        },
        DnsblListView {
            id: "spamcop"@,
            name: "SpamCop"@,
            zone: "bl.spamcop.net"@,
            description: "SpamCop Blocking List - Reported spam sources"@,
            category: DnsblCategory::Spam,
            default_enabled: false,
            response_format: DnsblResponseFormat::Standard,
            priority: 4,
            avg_response_time_ms: 120,
        },
        DnsblListView {
            id: "projecthoneypot"@,
            name: "Project Honeypot"@,
            zone: "dnsbl.httpbl.org"@,
            description: "Project Honeypot - HTTP comment spammers, harvesters"@,
            category: DnsblCategory::Proxy,
            default_enabled: false,
            response_format: DnsblResponseFormat::Standard,
            priority: 6,
            avg_response_time_ms: 80,
        },
        DnsblListView {
            id: "multisurbl"@,
            name: "MultiSURBL"@,
            zone: "multi.surbl.org"@,
            description: "MultiSURBL - Multiple spam URI blocklists"@,
            category: DnsblCategory::Spam,
            default_enabled: false,
            response_format: DnsblResponseFormat::Standard,
            priority: 5,
            avg_response_time_ms: 90,
        },
        DnsblListView {
            id: "emergingthreats"@,
            name: "Emerging Threats"@,
            zone: "bl.spameatingmonkey.net"@,
            description: "Emerging Threats - Compromised hosts, botnets"@,
            category: DnsblCategory::Compromised,
            default_enabled: false,
            response_format: DnsblResponseFormat::Standard,
            priority: 7,
            avg_response_time_ms: 150,
        },
    ]
}

impl DnsblLists {
    /// The built-in collection: exactly the descriptors of
    /// `spec_default_lists`, in order.
    pub fn new() -> (r: Self)
        ensures
            r@ == spec_default_lists(),
    {
        let mut lists: Vec<DnsblList> = Vec::new();
        lists.push(
            DnsblList {
                id: "zen".to_owned(),
                name: "Spamhaus ZEN".to_owned(),
                zone: "zen.spamhaus.org".to_owned(),
                description: "Combined Spamhaus lists (SBL+XBL+PBL)".to_owned(),
                category: DnsblCategory::Spam,
                default_enabled: true,
                response_format: DnsblResponseFormat::Standard,
                priority: 1,
                avg_response_time_ms: 50,
            },
        );
        lists.push(
            DnsblList {
                id: "sbl".to_owned(),
                name: "Spamhaus SBL".to_owned(),
                zone: "sbl.spamhaus.org".to_owned(),
                description: "Spamhaus Block List - Verified spam sources".to_owned(),
                category: DnsblCategory::Spam,
                default_enabled: false,
                response_format: DnsblResponseFormat::Standard,
                priority: 2,
                avg_response_time_ms: 45,
            },
        );
        lists.push(
            DnsblList {
                id: "xbl".to_owned(),
                name: "Spamhaus XBL".to_owned(),
                zone: "xbl.spamhaus.org".to_owned(),
                description: "Exploits Block List - Illegal 3rd party exploits".to_owned(),
                category: DnsblCategory::Malware,
                default_enabled: false,
                response_format: DnsblResponseFormat::Standard,
                priority: 2,
                avg_response_time_ms: 45,
            },
        );
        lists.push(
            DnsblList {
                id: "pbl".to_owned(),
                name: "Spamhaus PBL".to_owned(),
                zone: "pbl.spamhaus.org".to_owned(),
                description: "Policy Block List - Dynamic/Residential IPs".to_owned(),
                category: DnsblCategory::Spam,
                default_enabled: false,
                response_format: DnsblResponseFormat::Standard,
                priority: 5,
                avg_response_time_ms: 40,
            },
        );
        lists.push(
            DnsblList {
                id: "barracuda".to_owned(),
                name: "Barracuda Central".to_owned(),
                zone: "b.barracudacentral.org".to_owned(),
                description: "Barracuda Reputation Block List".to_owned(),
                category: DnsblCategory::Reputation,
                default_enabled: true,
                response_format: DnsblResponseFormat::Standard,
                priority: 2,
                avg_response_time_ms: 60,
            },
        );
        lists.push(
            DnsblList {
                id: "dronebl".to_owned(),
                name: "DroneBL".to_owned(),
                zone: "dnsbl.dronebl.org".to_owned(),
                description: "DroneBL - Abused infected bots, spammers".to_owned(),
                category: DnsblCategory::Botnet,
                default_enabled: true,
                response_format: DnsblResponseFormat::Standard,
                priority: 2,
                avg_response_time_ms: 70,
            },
        );
        lists.push(
            DnsblList {
                id: "spamcop".to_owned(),
                name: "SpamCop".to_owned(),
                zone: "bl.spamcop.net".to_owned(),
                description: "SpamCop Blocking List - Reported spam sources".to_owned(),
                category: DnsblCategory::Spam,
                default_enabled: false,
                response_format: DnsblResponseFormat::Standard,
                priority: 4,
                avg_response_time_ms: 120,
            },
        );
        lists.push(
            DnsblList {
                id: "projecthoneypot".to_owned(),
                name: "Project Honeypot".to_owned(),
                zone: "dnsbl.httpbl.org".to_owned(),
                description: "Project Honeypot - HTTP comment spammers, harvesters".to_owned(),
                category: DnsblCategory::Proxy,
                default_enabled: false,
                response_format: DnsblResponseFormat::Standard,
                priority: 6,
                avg_response_time_ms: 80,
            },
        );
        lists.push(
            DnsblList {
                id: "multisurbl".to_owned(),
                name: "MultiSURBL".to_owned(),
                zone: "multi.surbl.org".to_owned(),
                description: "MultiSURBL - Multiple spam URI blocklists".to_owned(),
                category: DnsblCategory::Spam,
                default_enabled: false,
                response_format: DnsblResponseFormat::Standard,
                priority: 5,
                avg_response_time_ms: 90,
            },
        );
        lists.push(
            DnsblList {
                id: "emergingthreats".to_owned(),
                name: "Emerging Threats".to_owned(),
                zone: "bl.spameatingmonkey.net".to_owned(),
                description: "Emerging Threats - Compromised hosts, botnets".to_owned(),
                category: DnsblCategory::Compromised,
                default_enabled: false,
                response_format: DnsblResponseFormat::Standard,
                priority: 7,
                avg_response_time_ms: 150,
            },
        );
        let r = DnsblLists { lists };
        proof {
            assert(r@ =~= spec_default_lists());
        }
        r
    }

    /// The lists that are consulted when no explicit set is configured.
    pub fn get_default_enabled(&self) -> (r: Vec<&DnsblList>)
        ensures
            ref_views(r@) == self@.filter(enabled_pred()),
    {
        let mut r: Vec<&DnsblList> = Vec::new();
        let n = self.lists.len();
        let mut i: usize = 0;
        while i < n
            invariant
                n == self.lists@.len(),
                0 <= i <= n,
                ref_views(r@) == self@.take(i as int).filter(enabled_pred()),
            decreases n - i,
        {
            let ghost prev = ref_views(r@);
            if self.lists[i].default_enabled {
                r.push(&self.lists[i]);
            }
            proof {
                reveal(Seq::filter);
                assert(self@.take(i + 1).drop_last() =~= self@.take(i as int));
                assert(self@.take(i + 1).last() == self@[i as int]);
                if self.lists@[i as int].default_enabled {
                    assert(ref_views(r@) =~= prev.push(self@[i as int]));
                } else {
                    assert(ref_views(r@) =~= prev);
                }
            }
            i = i + 1;
        }
        proof {
            assert(self@.take(n as int) =~= self@);
        }
        r
    }

    /// All known lists, in declaration order.
    pub fn get_all(&self) -> (r: Vec<&DnsblList>)
        ensures
            ref_views(r@) == self@,
    {
        let mut r: Vec<&DnsblList> = Vec::new();
        let n = self.lists.len();
        let mut i: usize = 0;
        while i < n
            invariant
                n == self.lists@.len(),
                0 <= i <= n,
                r@.len() == i,
                forall|j: int| 0 <= j < i ==> #[trigger] r@[j]@ == self@[j],
            decreases n - i,
        {
            r.push(&self.lists[i]);
            i = i + 1;
        }
        proof {
            assert(ref_views(r@) =~= self@);
        }
        r
    }

    /// The first list with the given id, if the id is known.
    pub fn get_by_id(&self, id: &str) -> (r: Option<&DnsblList>)
        ensures
            match r {
                Some(l) => find_by_id(self@, id@) == Some(l@),
                None => find_by_id(self@, id@) is None,
            },
    {
        let n = self.lists.len();
        let mut i: usize = 0;
        while i < n
            invariant
                n == self.lists@.len(),
                0 <= i <= n,
                forall|j: int| 0 <= j < i ==> #[trigger] self@[j].id != id@,
            decreases n - i,
        {
            if str_eq(self.lists[i].id.as_str(), id) {
                proof {
                    lemma_find_prefix_miss(self@, id@, i as int);
                    assert(self@.skip(i as int)[0] == self@[i as int]);
                }
                return Some(&self.lists[i]);
            }
            i = i + 1;
        }
        proof {
            lemma_find_prefix_miss(self@, id@, n as int);
            assert(self@.skip(n as int).len() == 0);
        }
        None
    }

    /// The lists of one category, in declaration order.
    pub fn get_by_category(&self, category: &DnsblCategory) -> (r: Vec<&DnsblList>)
        ensures
            ref_views(r@) == self@.filter(cat_pred(*category)),
    {
        let mut r: Vec<&DnsblList> = Vec::new();
        let n = self.lists.len();
        let mut i: usize = 0;
        while i < n
            invariant
                n == self.lists@.len(),
                0 <= i <= n,
                ref_views(r@) == self@.take(i as int).filter(cat_pred(*category)),
            decreases n - i,
        {
            let ghost prev = ref_views(r@);
            if self.lists[i].category == *category {
                r.push(&self.lists[i]);
            }
            proof {
                reveal(Seq::filter);
                assert(self@.take(i + 1).drop_last() =~= self@.take(i as int));
                assert(self@.take(i + 1).last() == self@[i as int]);
                if self.lists@[i as int]@.category == *category {
                    assert(ref_views(r@) =~= prev.push(self@[i as int]));
                } else {
                    assert(ref_views(r@) =~= prev);
                }
            }
            i = i + 1;
        }
        proof {
            assert(self@.take(n as int) =~= self@);
        }
        r
    }

    /// The effective list set before ordering: inclusion, then exclusion.
    fn effective_lists(&self, chosen: &[String], exclude: &[String]) -> (r: Vec<&DnsblList>)
        ensures
            ref_views(r@) == effective_selection(
                self@,
                string_views(chosen@),
                string_views(exclude@),
            ),
    {
        let base: Vec<&DnsblList> = if chosen.is_empty() {
            self.get_default_enabled()
        } else {
            let mut sel: Vec<&DnsblList> = Vec::new();
            let mut i: usize = 0;
            while i < chosen.len()
                invariant
                    0 <= i <= chosen@.len(),
                    ref_views(sel@) == select_by_ids(self@, string_views(chosen@).take(i as int)),
                decreases chosen@.len() - i,
            {
                let ghost prev = ref_views(sel@);
                let found = self.get_by_id(chosen[i].as_str());
                match found {
                    Some(l) => {
                        sel.push(l);
                    },
                    None => {},
                }
                proof {
                    let ids = string_views(chosen@);
                    assert(ids.take(i + 1).drop_last() =~= ids.take(i as int));
                    assert(ids.take(i + 1).last() == ids[i as int]);
                    assert(ids[i as int] == chosen@[i as int]@);
                    match find_by_id(self@, chosen@[i as int]@) {
                        Some(lv) => {
                            assert(ref_views(sel@) =~= prev.push(lv));
                            assert(ref_views(sel@) =~= select_by_ids(self@, ids.take(i + 1)));
                        },
                        None => {
                            assert(ref_views(sel@) =~= select_by_ids(self@, ids.take(i + 1)));
                        },
                    }
                }
                i = i + 1;
            }
            proof {
                assert(string_views(chosen@).take(chosen@.len() as int) =~= string_views(
                    chosen@,
                ));
            }
            sel
        };
        let mut out: Vec<&DnsblList> = Vec::new();
        let n = base.len();
        let mut i: usize = 0;
        while i < n
            invariant
                n == base@.len(),
                0 <= i <= n,
                ref_views(out@) == ref_views(base@).take(i as int).filter(
                    not_excluded_pred(string_views(exclude@)),
                ),
            decreases n - i,
        {
            let ghost prev = ref_views(out@);
            let excluded = contains_string(exclude, base[i].id.as_str());
            if !excluded {
                out.push(base[i]);
            }
            proof {
                reveal(Seq::filter);
                let bv = ref_views(base@);
                assert(bv.take(i + 1).drop_last() =~= bv.take(i as int));
                assert(bv.take(i + 1).last() == bv[i as int]);
                if !excluded {
                    assert(ref_views(out@) =~= prev.push(bv[i as int]));
                } else {
                    assert(ref_views(out@) =~= prev);
                }
            }
            i = i + 1;
        }
        proof {
            assert(ref_views(base@).take(n as int) =~= ref_views(base@));
        }
        out
    }

    /// The effective list set, ordered by priority, then average response
    /// time: the same lists `effective_selection` names, as a multiset.
    pub fn filter_lists(&self, chosen: &[String], exclude: &[String]) -> (r: Vec<&DnsblList>)
        ensures
            ref_views(r@).to_multiset() == effective_selection(
                self@,
                string_views(chosen@),
                string_views(exclude@),
            ).to_multiset(),
            ref_views(r@).len() == effective_selection(
                self@,
                string_views(chosen@),
                string_views(exclude@),
            ).len(),
            sorted_lists(ref_views(r@)),
    {
        let base = self.effective_lists(chosen, exclude);
        sort_lists(base)
    }

    /// Same ordering as `filter_lists`: priority first, response time second.
    pub fn get_lists_by_priority(&self, chosen: &[String], exclude: &[String]) -> (r: Vec<
        &DnsblList,
    >)
        ensures
            ref_views(r@).to_multiset() == effective_selection(
                self@,
                string_views(chosen@),
                string_views(exclude@),
            ).to_multiset(),
            ref_views(r@).len() == effective_selection(
                self@,
                string_views(chosen@),
                string_views(exclude@),
            ).len(),
            sorted_lists(ref_views(r@)),
    {
        self.filter_lists(chosen, exclude)
    }

    /// The fast part of the effective set: lists of priority three or
    /// better, ordered as in `filter_lists`.
    pub fn get_fast_lists(&self, chosen: &[String], exclude: &[String]) -> (r: Vec<&DnsblList>)
        ensures
            ref_views(r@).to_multiset() == effective_selection(
                self@,
                string_views(chosen@),
                string_views(exclude@),
            ).filter(fast_pred()).to_multiset(),
            sorted_lists(ref_views(r@)),
    {
        let base = self.effective_lists(chosen, exclude);
        let mut fast: Vec<&DnsblList> = Vec::new();
        let n = base.len();
        let mut i: usize = 0;
        while i < n
            invariant
                n == base@.len(),
                0 <= i <= n,
                ref_views(fast@) == ref_views(base@).take(i as int).filter(fast_pred()),
            decreases n - i,
        {
            let ghost prev = ref_views(fast@);
            if base[i].priority <= 3 {
                fast.push(base[i]);
            }
            proof {
                reveal(Seq::filter);
                let bv = ref_views(base@);
                assert(bv.take(i + 1).drop_last() =~= bv.take(i as int));
                assert(bv.take(i + 1).last() == bv[i as int]);
                if bv[i as int].priority <= 3 {
                    assert(ref_views(fast@) =~= prev.push(bv[i as int]));
                } else {
                    assert(ref_views(fast@) =~= prev);
                }
            }
            i = i + 1;
        }
        proof {
            assert(ref_views(base@).take(n as int) =~= ref_views(base@));
        }
        sort_lists(fast)
    }

    /// Counts the lists of one category.
    pub fn count_category(&self, c: DnsblCategory) -> (r: usize)
        ensures
            r == self@.filter(cat_pred(c)).len(),
    {
        let n = self.lists.len();
        let mut count: usize = 0;
        let mut i: usize = 0;
        while i < n
            invariant
                n == self.lists@.len(),
                0 <= i <= n,
                count == self@.take(i as int).filter(cat_pred(c)).len(),
                count <= i,
            decreases n - i,
        {
            proof {
                reveal(Seq::filter);
                assert(self@.take(i + 1).drop_last() =~= self@.take(i as int));
                assert(self@.take(i + 1).last() == self@[i as int]);
            }
            if self.lists[i].category == c {
                count = count + 1;
            }
            i = i + 1;
        }
        proof {
            assert(self@.take(n as int) =~= self@);
        }
        count
    }

    /// Statistics over the known lists: the totals and one count per
    /// category, in declaration order of the categories.
    pub fn get_stats(&self) -> (r: DnsblStats)
        ensures
            r.total_lists == self@.len(),
            r.default_enabled == self@.filter(enabled_pred()).len(),
            r.by_category@.len() == 7,
            forall|k: int|
                0 <= k < 7 ==> #[trigger] r.by_category@[k].1 == self@.filter(
                    cat_pred(r.by_category@[k].0),
                ).len(),
    {
        let total = self.lists.len();
        let enabled = self.get_default_enabled().len();
        let mut by_category: Vec<(DnsblCategory, usize)> = Vec::new();
        by_category.push((DnsblCategory::Spam, self.count_category(DnsblCategory::Spam)));
        by_category.push((DnsblCategory::Malware, self.count_category(DnsblCategory::Malware)));
        by_category.push((DnsblCategory::Botnet, self.count_category(DnsblCategory::Botnet)));
        by_category.push((DnsblCategory::Proxy, self.count_category(DnsblCategory::Proxy)));
        by_category.push(
            (DnsblCategory::Compromised, self.count_category(DnsblCategory::Compromised)),
        );
        by_category.push((DnsblCategory::Threat, self.count_category(DnsblCategory::Threat)));
        by_category.push(
            (DnsblCategory::Reputation, self.count_category(DnsblCategory::Reputation)),
        );
        DnsblStats { total_lists: total, default_enabled: enabled, by_category }
    }
}

impl Default for DnsblLists {
    /// Same collection as `new`.
    fn default() -> (r: Self)
        ensures
            r@ == spec_default_lists(),
    {
        Self::new()
    }
}

impl Clone for DnsblLists {
    fn clone(&self) -> (res: Self)
        ensures
            res@ == self@,
    {
        let mut lists: Vec<DnsblList> = Vec::new();
        let n = self.lists.len();
        let mut i: usize = 0;
        while i < n
            invariant
                n == self.lists@.len(),
                0 <= i <= n,
                lists@.len() == i,
                forall|j: int| 0 <= j < i ==> #[trigger] lists@[j]@ == self.lists@[j]@,
            decreases n - i,
        {
            lists.push(self.lists[i].clone());
            i = i + 1;
        }
        let res = DnsblLists { lists };
        proof {
            assert(res@ =~= self@);
        }
        res
    }
}

/// `find_by_id` ignores a prefix free of the wanted id.
proof fn lemma_find_prefix_miss(ls: Seq<DnsblListView>, id: Seq<char>, i: int)
    requires
        0 <= i <= ls.len(),
        forall|j: int| 0 <= j < i ==> #[trigger] ls[j].id != id,
    ensures
        find_by_id(ls, id) == find_by_id(ls.skip(i), id),
    decreases i,
{
    if i > 0 {
        assert(ls[0].id != id);
        assert(ls.drop_first() =~= ls.skip(1));
        lemma_find_prefix_miss(ls.drop_first(), id, i - 1);
        assert(ls.drop_first().skip(i - 1) =~= ls.skip(i));
    } else {
        assert(ls.skip(0) =~= ls);
    }
}

/// Whether `a` precedes `b` in the list ordering.
fn list_le_exec(a: &DnsblList, b: &DnsblList) -> (r: bool)
    ensures
        r == list_le(a@, b@),
{
    a.priority < b.priority || (a.priority == b.priority && a.avg_response_time_ms
        <= b.avg_response_time_ms)
}

/// Sorts lists by priority, then average response time; the result holds
/// exactly the given lists.
fn sort_lists<'a>(v: Vec<&'a DnsblList>) -> (r: Vec<&'a DnsblList>)
    ensures
        ref_views(r@).to_multiset() == ref_views(v@).to_multiset(),
        ref_views(r@).len() == ref_views(v@).len(),
        sorted_lists(ref_views(r@)),
{
    broadcast use vstd::seq_lib::group_to_multiset_ensures;

    let mut rest = v;
    let mut out: Vec<&'a DnsblList> = Vec::new();
    let ghost all = ref_views(rest@).to_multiset();
    let ghost total = rest@.len();
    while rest.len() > 0
        invariant
            out@.len() + rest@.len() == total,
            ref_views(out@).to_multiset().add(ref_views(rest@).to_multiset()) =~= all,
            sorted_lists(ref_views(out@)),
            forall|i: int, j: int|
                0 <= i < out@.len() && 0 <= j < rest@.len() ==> list_le(
                    #[trigger] ref_views(out@)[i],
                    #[trigger] ref_views(rest@)[j],
                ),
        decreases rest@.len(),
    {
        let mut m: usize = 0;
        let mut k: usize = 1;
        while k < rest.len()
            invariant
                0 <= m < k <= rest@.len(),
                forall|j: int| 0 <= j < k ==> list_le(ref_views(rest@)[m as int], #[trigger] ref_views(rest@)[j]),
            decreases rest@.len() - k,
        {
            if !list_le_exec(rest[m], rest[k]) {
                proof {
                    assert forall|j: int| 0 <= j < k + 1 implies list_le(
                        ref_views(rest@)[k as int],
                        #[trigger] ref_views(rest@)[j],
                    ) by {
                        assert(list_le(ref_views(rest@)[k as int], ref_views(rest@)[m as int]));
                        assert(list_le(ref_views(rest@)[m as int], ref_views(rest@)[j]) || j
                            == k);
                    }
                }
                m = k;
            }
            k = k + 1;
        }
        let ghost rest_old = rest@;
        let ghost out_old = out@;
        let x = rest.remove(m);
        out.push(x);
        proof {
            let rv_old = ref_views(rest_old);
            let rv_new = ref_views(rest@);
            let ov_old = ref_views(out_old);
            let ov_new = ref_views(out@);
            assert(rv_new =~= rv_old.remove(m as int));
            assert(ov_new =~= ov_old.push(x@));
            rv_old.to_multiset_ensures();
            ov_old.to_multiset_ensures();
            assert(rv_old.remove(m as int).to_multiset() =~= rv_old.to_multiset().remove(
                rv_old[m as int],
            ));
            assert(ov_old.push(x@).to_multiset() =~= ov_old.to_multiset().insert(x@));
            assert(ov_new.to_multiset().add(rv_new.to_multiset()) =~= all);
            assert forall|i: int, j: int|
                0 <= i < ov_new.len() && 0 <= j < rv_new.len() implies list_le(
                #[trigger] ov_new[i],
                #[trigger] rv_new[j],
            ) by {
                if i < ov_old.len() {
                    if j < m {
                        assert(rv_new[j] == rv_old[j]);
                    } else {
                        assert(rv_new[j] == rv_old[j + 1]);
                    }
                } else {
                    assert(ov_new[i] == x@);
                    if j < m {
                        assert(rv_new[j] == rv_old[j]);
                        assert(list_le(rv_old[m as int], rv_old[j]));
                    } else {
                        assert(rv_new[j] == rv_old[j + 1]);
                        assert(list_le(rv_old[m as int], rv_old[j + 1]));
                    }
                }
            }
            assert(sorted_lists(ov_new));
        }
    }
    proof {
        assert(ref_views(rest@).to_multiset() =~= Multiset::empty());
        assert(ref_views(out@).to_multiset() =~= all);
        assert(ref_views(out@).len() == ref_views(out@).to_multiset().len());
        assert(ref_views(v@).len() == ref_views(v@).to_multiset().len());
    }
    out
}

/// Statistics about the known blocklists.
#[derive(Debug)]
pub struct DnsblStats {
    /// How many lists are known.
    pub total_lists: usize,
    /// How many of them are enabled by default.
    pub default_enabled: usize,
    /// How many lists fall in each category.
    pub by_category: Vec<(DnsblCategory, usize)>,
}

/// Turns a dotted IPv4 address into the reversed-label form that blocklist
/// zones are queried under: `a.b.c.d` becomes `d.c.b.a`. Addresses with a
/// colon are rejected as IPv6; anything but four dot-separated labels is
/// rejected as malformed.
pub fn ip_to_dnsbl_format(ip: &str) -> (r: Result<String, String>)
    ensures
        r is Ok <==> !ip@.contains(':') && split_dots(ip@).len() == 4,
        r matches Ok(o) ==> o@ == join_dots(split_dots(ip@).reverse()),
        r matches Err(e) ==> e@ == if ip@.contains(':') {
            "IPv6 not supported for DNSBL queries"@
        } else {
            "Invalid IPv4 address format"@
        },
{
    if contains_char(ip, ':') {
        return Err("IPv6 not supported for DNSBL queries".to_owned());
    }
    let parts = split_labels(ip);
    if parts.len() != 4 {
        return Err("Invalid IPv4 address format".to_owned());
    }
    let mut rev: Vec<String> = Vec::new();
    rev.push(parts[3].clone());
    rev.push(parts[2].clone());
    rev.push(parts[1].clone());
    rev.push(parts[0].clone());
    proof {
        assert(string_views(rev@) =~= string_views(parts@).reverse());
        assert(string_views(parts@) == split_dots(ip@));
    }
    Ok(join_labels(&rev))
}

/// Reversing the labels of a well-formed IPv4 address twice restores the
/// original address: the reversal the blocklist query format applies is an
/// involution on dotted quads.
pub proof fn lemma_reversed_labels_involution(s: Seq<char>)
    requires
        !s.contains(':'),
        split_dots(s).len() == 4,
    ensures
        !join_dots(split_dots(s).reverse()).contains(':'),
        split_dots(join_dots(split_dots(s).reverse())).len() == 4,
        join_dots(split_dots(join_dots(split_dots(s).reverse())).reverse()) == s,
{
    let parts = split_dots(s);
    lemma_split_join(s);
    let rev = parts.reverse();
    assert(forall|k: int| 0 <= k < rev.len() ==> free_of(#[trigger] rev[k], '.'));
    let r1 = join_dots(rev);
    lemma_join_split(rev);
    assert(split_dots(r1) == rev);
    assert(!r1.contains(':')) by {
        if r1.contains(':') {
            lemma_join_chars(rev, ':');
            let k = choose|k: int| 0 <= k < rev.len() && #[trigger] rev[k].contains(':');
            let kk = rev.len() - 1 - k;
            assert(rev[k] == parts[kk]);
            lemma_part_chars_in_whole(s, kk);
            let c = ':';
            assert(parts[kk].contains(c));
            assert(s.contains(c));
        }
    }
    assert(split_dots(r1).reverse() =~= parts);
    assert(join_dots(parts) == s);
}

/// Every character of a label of `s` occurs in `s`.
proof fn lemma_part_chars_in_whole(s: Seq<char>, k: int)
    requires
        0 <= k < split_dots(s).len(),
    ensures
        forall|c: char| #[trigger] split_dots(s)[k].contains(c) ==> s.contains(c),
    decreases s.len(),
{
    crate::strutil::lemma_first_dot_bound(s);
    let i = first_dot(s);
    if i < 0 {
        assert(split_dots(s)[0] == s);
    } else {
        if k == 0 {
            assert(split_dots(s)[0] == s.take(i));
            assert forall|c: char| #[trigger] s.take(i).contains(c) implies s.contains(c) by {
                let j = choose|j: int| 0 <= j < s.take(i).len() && s.take(i)[j] == c;
                assert(s[j] == c);
            }
        } else {
            let tail = s.skip(i + 1);
            assert(split_dots(s)[k] == split_dots(tail)[k - 1]);
            lemma_part_chars_in_whole(tail, k - 1);
            assert forall|c: char| #[trigger] split_dots(s)[k].contains(c) implies s.contains(
                c,
            ) by {
                assert(tail.contains(c));
                let j = choose|j: int| 0 <= j < tail.len() && tail[j] == c;
                assert(s[j + i + 1] == c);
            }
        }
    }
}

} // verus!
