//! Host resolution support: geolocation data, the country tables, and a
//! process-local cache of name lookups. The DNS and HTTP lookups themselves
//! are network work and happen outside the library.

use vstd::prelude::*;

use crate::strutil::{starts_with, str_eq, string_views};
use vstd::string::StringExecFns;

verus! {

/// Where an address appears to be located.
#[derive(Debug)]
pub struct GeoData {
    /// Two-letter country code, `--` when unknown.
    pub iso_code: String,
    /// Country name.
    pub name: String,
    /// Region code.
    pub region_iso_code: String,
    /// Region name.
    pub region_name: String,
    /// City name.
    pub city_name: String,
}

impl Clone for GeoData {
    fn clone(&self) -> (res: Self)
        ensures
            res.iso_code@ == self.iso_code@,
            res.name@ == self.name@,
            res.region_iso_code@ == self.region_iso_code@,
            res.region_name@ == self.region_name@,
            res.city_name@ == self.city_name@,
    {
        GeoData {
            iso_code: self.iso_code.clone(),
            name: self.name.clone(),
            region_iso_code: self.region_iso_code.clone(),
            region_name: self.region_name.clone(),
            city_name: self.city_name.clone(),
        }
    }
}

impl Default for GeoData {
    /// Everything unknown.
    fn default() -> (r: Self)
        ensures
            r.iso_code@ == "--"@,
            r.name@ == "unknown"@,
            r.region_iso_code@ == "unknown"@,
            r.region_name@ == "unknown"@,
            r.city_name@ == "unknown"@,
    {
        GeoData {
            iso_code: "--".to_owned(),
            name: "unknown".to_owned(),
            region_iso_code: "unknown".to_owned(),
            region_name: "unknown".to_owned(),
            city_name: "unknown".to_owned(),
        }
    }
}

/// The country code the prefix table assigns to an address.
pub open spec fn spec_country_of(ip: Seq<char>) -> Seq<char> {
    if starts_with_spec(ip, "8.8.8."@) || starts_with_spec(ip, "1.1.1."@) {
        "US"@
    } else if starts_with_spec(ip, "208.67.222."@) {
        "CA"@
    } else if starts_with_spec(ip, "151.101."@) {
        "FR"@
    } else if starts_with_spec(ip, "77.88."@) {
        "DE"@
    } else if starts_with_spec(ip, "213.180."@) {
        "GB"@
    } else if starts_with_spec(ip, "202.108."@) {
        "AU"@
    } else {
        "--"@
    }
}

/// Whether `pre` is a prefix of `s`.
pub open spec fn starts_with_spec(s: Seq<char>, pre: Seq<char>) -> bool {
    pre.len() <= s.len() && s.take(pre.len() as int) == pre
}

/// The name the country table assigns to a code; an unknown code names
/// itself.
pub open spec fn spec_country_name(code: Seq<char>) -> Seq<char> {
    if code == "US"@ {
        "United States"@
    } else if code == "CA"@ {
        "Canada"@
    } else if code == "FR"@ {
        "France"@
    } else if code == "DE"@ {
        "Germany"@
    } else if code == "GB"@ {
        "United Kingdom"@
    } else if code == "AU"@ {
        "Australia"@
    } else if code == "--"@ {
        "Unknown"@
    } else {
        code
    }
}

/// Resolves hosts; holds a process-local cache of completed lookups.
#[derive(Debug)]
pub struct Resolver {
    cache: Vec<(String, String)>,
}

impl Resolver {
    /// The cached host/address pairs.
    pub closed spec fn cache_view(&self) -> Seq<(Seq<char>, Seq<char>)> {
        Seq::new(self.cache@.len(), |i: int| (self.cache@[i].0@, self.cache@[i].1@))
    }

    /// A resolver with an empty cache.
    pub fn new() -> (r: Self)
        ensures
            r.cache_view().len() == 0,
    {
        let r = Resolver { cache: Vec::new() };
        proof {
            assert(r.cache_view() =~= Seq::<(Seq<char>, Seq<char>)>::empty());
        }
        r
    }

    /// Whether the host is a literal IPv4 address.
    pub fn host_is_ip(&self, host: &str) -> (r: bool)
        ensures
            r == crate::ip::is_ipv4_literal(host@),
    {
        match crate::ip::parse_ipv4(host) {
            Some(_) => true,
            None => false,
        }
    }

    /// The country code the prefix table assigns to the address.
    pub fn detect_country_from_ip(&self, ip: &str) -> (r: String)
        ensures
            r@ == spec_country_of(ip@),
    {
        if starts_with(ip, "8.8.8.") || starts_with(ip, "1.1.1.") {
            "US".to_owned()
        } else if starts_with(ip, "208.67.222.") {
            "CA".to_owned()
        } else if starts_with(ip, "151.101.") {
            "FR".to_owned()
        } else if starts_with(ip, "77.88.") {
            "DE".to_owned()
        } else if starts_with(ip, "213.180.") {
            "GB".to_owned()
        } else if starts_with(ip, "202.108.") {
            "AU".to_owned()
        } else {
            "--".to_owned()
        }
    }

    /// The name the country table assigns to a code.
    pub fn get_country_name(&self, country_code: &str) -> (r: String)
        ensures
            r@ == spec_country_name(country_code@),
    {
        if str_eq(country_code, "US") {
            "United States".to_owned()
        } else if str_eq(country_code, "CA") {
            "Canada".to_owned()
        } else if str_eq(country_code, "FR") {
            "France".to_owned()
        } else if str_eq(country_code, "DE") {
            "Germany".to_owned()
        } else if str_eq(country_code, "GB") {
            "United Kingdom".to_owned()
        } else if str_eq(country_code, "AU") {
            "Australia".to_owned()
        } else if str_eq(country_code, "--") {
            "Unknown".to_owned()
        } else {
            country_code.to_owned()
        }
    }

    /// Geolocation derived from the address alone: the table's country code
    /// and name, everything finer unknown.
    pub fn get_ip_info(&self, ip: &str) -> (r: GeoData)
        ensures
            r.iso_code@ == spec_country_of(ip@),
            r.name@ == spec_country_name(spec_country_of(ip@)),
    {
        let iso = self.detect_country_from_ip(ip);
        let name = self.get_country_name(iso.as_str());
        let mut geo = GeoData::default();
        geo.iso_code = iso;
        geo.name = name;
        geo
    }

    /// Remembers a completed lookup.
    pub fn note_resolved(&mut self, host: String, ip: String)
        ensures
            final(self).cache_view() == old(self).cache_view().push((host@, ip@)),
    {
        self.cache.push((host, ip));
        proof {
            assert(self.cache_view() =~= old(self).cache_view().push((host@, ip@)));
        }
    }

    /// The cached address for a host, if one is known: the name lookup
    /// itself is network work and runs outside the library.
    pub fn resolve_cached(&self, host: &str) -> (r: Option<String>)
        ensures
            r is Some <==> exists|i: int|
                0 <= i < self.cache_view().len() && (#[trigger] self.cache_view()[i]).0 == host@,
            r matches Some(ip) ==> exists|i: int|
                0 <= i < self.cache_view().len() && (#[trigger] self.cache_view()[i]).0 == host@
                    && self.cache_view()[i].1 == ip@,
    {
        let n = self.cache.len();
        let mut i: usize = 0;
        while i < n
            invariant
                n == self.cache@.len(),
                0 <= i <= n,
                forall|j: int| 0 <= j < i ==> (#[trigger] self.cache_view()[j]).0 != host@,
            decreases n - i,
        {
            if str_eq(self.cache[i].0.as_str(), host) {
                let ip = self.cache[i].1.clone();
                proof {
                    assert((self.cache_view()[i as int]).0 == host@);
                    assert((self.cache_view()[i as int]).1 == ip@);
                }
                return Some(ip);
            }
            i = i + 1;
        }
        proof {
            if exists|j: int|
                0 <= j < self.cache_view().len() && (#[trigger] self.cache_view()[j]).0 == host@ {
                let j = choose|j: int|
                    0 <= j < self.cache_view().len() && (#[trigger] self.cache_view()[j]).0
                        == host@;
            }
        }
        None
    }
}

} // verus!
