//! Parsing of literal IPv4 addresses into their four octets.

use vstd::prelude::*;

use vstd::string::StrSliceExecFns;

verus! {

/// Whether the character is a decimal digit.
pub open spec fn is_digit(c: char) -> bool {
    '0' <= c && c <= '9'
}

/// The numeric value of a digit sequence, most significant first.
pub open spec fn digits_value(s: Seq<char>) -> int
    decreases s.len(),
{
    if s.len() == 0 {
        0
    } else {
        digits_value(s.drop_last()) * 10 + (s.last() as int - '0' as int)
    }
}

/// A well-formed octet label: one to three digits, no superfluous leading
/// zero, value at most 255.
pub open spec fn is_octet(s: Seq<char>) -> bool {
    &&& 1 <= s.len() <= 3
    &&& forall|i: int| 0 <= i < s.len() ==> is_digit(#[trigger] s[i])
    &&& (s.len() > 1 ==> s[0] != '0')
    &&& digits_value(s) <= 255
}

/// A literal IPv4 address: four octet labels separated by dots.
pub open spec fn is_ipv4_literal(s: Seq<char>) -> bool {
    let parts = crate::strutil::split_dots(s);
    parts.len() == 4 && forall|k: int| 0 <= k < 4 ==> is_octet(#[trigger] parts[k])
}

/// The four octets of a literal IPv4 address.
pub open spec fn spec_octets(s: Seq<char>) -> Seq<int> {
    let parts = crate::strutil::split_dots(s);
    Seq::new(4, |k: int| digits_value(parts[k]))
}

/// Parses one octet label.
fn parse_octet(s: &str) -> (r: Option<u8>)
    ensures
        r is Some <==> is_octet(s@),
        r matches Some(v) ==> v == digits_value(s@),
{
    let n = s.unicode_len();
    if n == 0 || n > 3 {
        return None;
    }
    let mut value: u32 = 0;
    let mut i: usize = 0;
    while i < n
        invariant
            n == s@.len(),
            n <= 3,
            0 <= i <= n,
            forall|j: int| 0 <= j < i ==> is_digit(#[trigger] s@[j]),
            value == digits_value(s@.take(i as int)),
            value < 1000,
            i < 3 ==> value < 100,
            i < 2 ==> value < 10,
            i < 1 ==> value == 0,
        decreases n - i,
    {
        let c = s.get_char(i);
        if c < '0' || c > '9' {
            return None;
        }
        proof {
            assert(s@.take(i + 1).drop_last() =~= s@.take(i as int));
            assert(s@.take(i + 1).last() == s@[i as int]);
        }
        value = value * 10 + (c as u32 - '0' as u32);
        i = i + 1;
    }
    proof {
        assert(s@.take(n as int) =~= s@);
    }
    if n > 1 && s.get_char(0) == '0' {
        return None;
    }
    if value > 255 {
        return None;
    }
    Some(value as u8)
}

/// Parses a literal IPv4 address into its four octets. The address must be
/// four dot-separated labels of one to three digits, each of value at most
/// 255 and without a superfluous leading zero.
pub fn parse_ipv4(s: &str) -> (r: Option<[u8; 4]>)
    ensures
        r is Some <==> is_ipv4_literal(s@),
        r matches Some(o) ==> {
            &&& o[0] == spec_octets(s@)[0]
            &&& o[1] == spec_octets(s@)[1]
            &&& o[2] == spec_octets(s@)[2]
            &&& o[3] == spec_octets(s@)[3]
        },
{
    let parts = crate::strutil::split_labels(s);
    if parts.len() != 4 {
        return None;
    }
    let a = parse_octet(parts[0].as_str());
    let b = parse_octet(parts[1].as_str());
    let c = parse_octet(parts[2].as_str());
    let d = parse_octet(parts[3].as_str());
    proof {
        assert(crate::strutil::string_views(parts@)[0] == crate::strutil::split_dots(s@)[0]);
        assert(crate::strutil::string_views(parts@)[1] == crate::strutil::split_dots(s@)[1]);
        assert(crate::strutil::string_views(parts@)[2] == crate::strutil::split_dots(s@)[2]);
        assert(crate::strutil::string_views(parts@)[3] == crate::strutil::split_dots(s@)[3]);
    }
    match (a, b, c, d) {
        (Some(a), Some(b), Some(c), Some(d)) => Some([a, b, c, d]),
        _ => None,
    }
}


/// A literal IPv4 address has exactly four dot-separated labels and no
/// colon: its labels are digit-only octets, and a colon is not a digit.
pub proof fn lemma_ipv4_literal_shape(s: Seq<char>)
    requires
        is_ipv4_literal(s),
    ensures
        !s.contains(':'),
        crate::strutil::split_dots(s).len() == 4,
{
    crate::strutil::lemma_split_join(s);
    if s.contains(':') {
        crate::strutil::lemma_join_chars(crate::strutil::split_dots(s), ':');
        let k = choose|k: int|
            0 <= k < crate::strutil::split_dots(s).len()
                && #[trigger] crate::strutil::split_dots(s)[k].contains(':');
        let part = crate::strutil::split_dots(s)[k];
        assert(is_octet(part));
        let j = choose|j: int| 0 <= j < part.len() && part[j] == ':';
        assert(is_digit(part[j]));
        assert(!is_digit(':'));
    }
}

} // verus!
