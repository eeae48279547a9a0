//! Verified helpers over strings and character sequences: equality,
//! membership, prefix tests, and splitting/joining on the `.` separator
//! used by DNS labels.

use vstd::prelude::*;

use vstd::string::StrSliceExecFns;
use vstd::string::StringExecFns;

verus! {

/// True when no character of `s` is the given separator.
pub open spec fn free_of(s: Seq<char>, sep: char) -> bool {
    forall|i: int| 0 <= i < s.len() ==> s[i] != sep
}

/// Index of the first `.` in `s`, or -1 when there is none.
pub open spec fn first_dot(s: Seq<char>) -> int
    decreases s.len(),
{
    if s.len() == 0 {
        -1
    } else if s[0] == '.' {
        0
    } else {
        let r = first_dot(s.drop_first());
        if r < 0 {
            -1
        } else {
            r + 1
        }
    }
}

/// `first_dot` stays within the bounds of its argument.
pub proof fn lemma_first_dot_bound(s: Seq<char>)
    ensures
        first_dot(s) == -1 || (0 <= first_dot(s) < s.len()),
    decreases s.len(),
{
    if s.len() > 0 && s[0] != '.' {
        lemma_first_dot_bound(s.drop_first());
    }
}

/// The labels of `s`, split on `.`; always at least one (possibly empty) label.
pub open spec fn split_dots(s: Seq<char>) -> Seq<Seq<char>>
    decreases s.len(),
    via split_dots_decreases
{
    let i = first_dot(s);
    if i < 0 {
        seq![s]
    } else {
        seq![s.take(i)] + split_dots(s.skip(i + 1))
    }
}

#[via_fn]
proof fn split_dots_decreases(s: Seq<char>) {
    lemma_first_dot_bound(s);
}

/// Joins labels with `.` between them; inverse of `split_dots`.
pub open spec fn join_dots(parts: Seq<Seq<char>>) -> Seq<char>
    decreases parts.len(),
{
    if parts.len() <= 1 {
        if parts.len() == 0 {
            Seq::empty()
        } else {
            parts[0]
        }
    } else {
        parts[0] + seq!['.'] + join_dots(parts.drop_first())
    }
}

/// `first_dot` finds exactly the least index holding a dot.
pub proof fn lemma_first_dot(s: Seq<char>)
    ensures
        first_dot(s) == -1 <==> free_of(s, '.'),
        first_dot(s) != -1 ==> 0 <= first_dot(s) < s.len() && s[first_dot(s)] == '.' && free_of(
            s.take(first_dot(s)),
            '.',
        ),
    decreases s.len(),
{
    if s.len() == 0 {
    } else if s[0] == '.' {
        assert(!free_of(s, '.'));
    } else {
        lemma_first_dot(s.drop_first());
        lemma_first_dot_bound(s.drop_first());
        let r = first_dot(s.drop_first());
        if r < 0 {
            assert(free_of(s.drop_first(), '.'));
            assert forall|i: int| 0 <= i < s.len() implies s[i] != '.' by {
                if i >= 1 {
                    assert(s[i] == s.drop_first()[i - 1]);
                }
            }
        } else {
            assert(s[r + 1] == s.drop_first()[r]);
            assert(!free_of(s, '.'));
            assert forall|i: int| 0 <= i < r + 1 implies #[trigger] s.take(r + 1)[i] != '.' by {
                if i >= 1 {
                    assert(s.take(r + 1)[i] == s.drop_first()[i - 1]);
                    assert(free_of(s.drop_first().take(r), '.'));
                    assert(s.drop_first()[i - 1] == s.drop_first().take(r)[i - 1]);
                }
            }
        }
    }
}

/// Splitting yields dot-free labels, and joining them restores the string.
pub proof fn lemma_split_join(s: Seq<char>)
    ensures
        split_dots(s).len() >= 1,
        forall|k: int|
            0 <= k < split_dots(s).len() ==> free_of(#[trigger] split_dots(s)[k], '.'),
        join_dots(split_dots(s)) == s,
        forall|c: char| join_dots(split_dots(s)).contains(c) ==> s.contains(c),
    decreases s.len(),
{
    lemma_first_dot(s);
    let i = first_dot(s);
    if i < 0 {
        assert(join_dots(split_dots(s)) == s);
    } else {
        let head = s.take(i);
        let tail = s.skip(i + 1);
        lemma_split_join(tail);
        let parts = split_dots(s);
        assert(parts == seq![head] + split_dots(tail));
        assert(forall|k: int|
            1 <= k < parts.len() ==> parts[k] == #[trigger] split_dots(tail)[k - 1]);
        if parts.len() > 1 {
            assert(parts.drop_first() =~= split_dots(tail));
        }
        assert(join_dots(parts) == head + seq!['.'] + join_dots(split_dots(tail)));
        assert(join_dots(parts) =~= s) by {
            assert(s[i] == '.');
        }
    }
}

/// The first dot of `p + "." + t` stands right after the dot-free `p`.
proof fn lemma_first_dot_of_concat(p: Seq<char>, t: Seq<char>)
    requires
        free_of(p, '.'),
    ensures
        first_dot(p + seq!['.'] + t) == p.len(),
    decreases p.len(),
{
    let s = p + seq!['.'] + t;
    if p.len() == 0 {
        assert(s[0] == '.');
    } else {
        assert(s[0] != '.');
        lemma_first_dot_of_concat(p.drop_first(), t);
        assert(s.drop_first() =~= p.drop_first() + seq!['.'] + t);
    }
}

/// Joining dot-free labels and splitting again restores the labels.
pub proof fn lemma_join_split(parts: Seq<Seq<char>>)
    requires
        parts.len() >= 1,
        forall|k: int| 0 <= k < parts.len() ==> free_of(#[trigger] parts[k], '.'),
    ensures
        split_dots(join_dots(parts)) == parts,
    decreases parts.len(),
{
    if parts.len() == 1 {
        lemma_first_dot(parts[0]);
        assert(split_dots(join_dots(parts)) =~= parts);
    } else {
        let p = parts[0];
        let rest = parts.drop_first();
        let t = join_dots(rest);
        let s = join_dots(parts);
        assert(s == p + seq!['.'] + t);
        lemma_first_dot_of_concat(p, t);
        assert(s.take(p.len() as int) =~= p);
        assert(s.skip(p.len() as int + 1) =~= t);
        lemma_join_split(rest);
        assert(split_dots(s) =~= parts);
    }
}

/// Every character of a joined string is a character of some label, or a dot.
pub proof fn lemma_join_chars(parts: Seq<Seq<char>>, c: char)
    requires
        join_dots(parts).contains(c),
        c != '.',
    ensures
        exists|k: int| 0 <= k < parts.len() && #[trigger] parts[k].contains(c),
    decreases parts.len(),
{
    if parts.len() == 0 {
    } else if parts.len() == 1 {
        assert(parts[0].contains(c));
    } else {
        let s = join_dots(parts);
        let p = parts[0];
        let t = join_dots(parts.drop_first());
        let j = choose|j: int| 0 <= j < s.len() && s[j] == c;
        if j < p.len() {
            assert(p.contains(c)) by {
                assert(p[j] == c);
            }
        } else {
            assert(j > p.len());
            assert(t[j - p.len() - 1] == c);
            assert(t.contains(c));
            lemma_join_chars(parts.drop_first(), c);
            let k = choose|k: int|
                0 <= k < parts.drop_first().len() && #[trigger] parts.drop_first()[k].contains(c);
            assert(parts[k + 1].contains(c));
        }
    }
}

/// The views of a sequence of strings.
pub open spec fn string_views(s: Seq<String>) -> Seq<Seq<char>> {
    Seq::new(s.len(), |i: int| s[i]@)
}

/// Whether `id` occurs among the strings of `ids`.
pub fn contains_string(ids: &[String], id: &str) -> (r: bool)
    ensures
        r == string_views(ids@).contains(id@),
{
    let n = ids.len();
    let mut i: usize = 0;
    while i < n
        invariant
            n == ids@.len(),
            0 <= i <= n,
            forall|j: int| 0 <= j < i ==> string_views(ids@)[j] != id@,
        decreases n - i,
    {
        if str_eq(ids[i].as_str(), id) {
            assert(string_views(ids@)[i as int] == id@);
            return true;
        }
        i = i + 1;
    }
    proof {
        if string_views(ids@).contains(id@) {
            let j = choose|j: int|
                0 <= j < string_views(ids@).len() && string_views(ids@)[j] == id@;
            assert(string_views(ids@)[j] != id@);
        }
    }
    false
}

/// Character-wise string equality, proved against the views.
pub fn str_eq(a: &str, b: &str) -> (r: bool)
    ensures
        r == (a@ == b@),
{
    let n = a.unicode_len();
    if n != b.unicode_len() {
        return false;
    }
    let mut i: usize = 0;
    while i < n
        invariant
            n == a@.len(),
            n == b@.len(),
            0 <= i <= n,
            forall|j: int| 0 <= j < i ==> a@[j] == b@[j],
        decreases n - i,
    {
        if a.get_char(i) != b.get_char(i) {
            return false;
        }
        i = i + 1;
    }
    proof {
        assert(a@ =~= b@);
    }
    true
}

/// String equality for owned strings.
pub fn string_eq(a: &String, b: &String) -> (r: bool)
    ensures
        r == (a@ == b@),
{
    str_eq(a.as_str(), b.as_str())
}

/// Whether the character occurs in the string.
pub fn contains_char(s: &str, c: char) -> (r: bool)
    ensures
        r == s@.contains(c),
{
    let n = s.unicode_len();
    let mut i: usize = 0;
    while i < n
        invariant
            n == s@.len(),
            0 <= i <= n,
            forall|j: int| 0 <= j < i ==> s@[j] != c,
        decreases n - i,
    {
        if s.get_char(i) == c {
            return true;
        }
        i = i + 1;
    }
    false
}

/// Whether `pre` is a prefix of `s`.
pub fn starts_with(s: &str, pre: &str) -> (r: bool)
    ensures
        r == (pre@.len() <= s@.len() && s@.take(pre@.len() as int) == pre@),
{
    let np = pre.unicode_len();
    let ns = s.unicode_len();
    if np > ns {
        return false;
    }
    let mut i: usize = 0;
    while i < np
        invariant
            np == pre@.len(),
            ns == s@.len(),
            np <= ns,
            0 <= i <= np,
            forall|j: int| 0 <= j < i ==> s@[j] == pre@[j],
        decreases np - i,
    {
        if s.get_char(i) != pre.get_char(i) {
            proof {
                assert(s@.take(np as int)[i as int] != pre@[i as int]);
            }
            return false;
        }
        i = i + 1;
    }
    proof {
        assert(s@.take(np as int) =~= pre@);
    }
    true
}

/// Lexicographic order on character sequences, by code point.
pub open spec fn lex_le(a: Seq<char>, b: Seq<char>) -> bool
    decreases a.len(),
{
    if a.len() == 0 {
        true
    } else if b.len() == 0 {
        false
    } else if (a[0] as u32) < (b[0] as u32) {
        true
    } else if (a[0] as u32) > (b[0] as u32) {
        false
    } else {
        lex_le(a.drop_first(), b.drop_first())
    }
}

/// Any two strings are ordered one way or the other.
pub proof fn lemma_lex_le_total(a: Seq<char>, b: Seq<char>)
    ensures
        lex_le(a, b) || lex_le(b, a),
    decreases a.len(),
{
    if a.len() > 0 && b.len() > 0 && a[0] as u32 == b[0] as u32 {
        lemma_lex_le_total(a.drop_first(), b.drop_first());
    }
}

/// Equal prefixes do not decide the order.
proof fn lemma_lex_le_common_prefix(a: Seq<char>, b: Seq<char>, i: int)
    requires
        0 <= i <= a.len(),
        i <= b.len(),
        forall|j: int| 0 <= j < i ==> (a[j] as u32) == (b[j] as u32),
    ensures
        lex_le(a, b) == lex_le(a.skip(i), b.skip(i)),
    decreases i,
{
    if i == 0 {
        assert(a.skip(0) =~= a);
        assert(b.skip(0) =~= b);
    } else {
        assert(a.len() > 0 && b.len() > 0);
        assert((a[0] as u32) == (b[0] as u32));
        assert(forall|j: int|
            0 <= j < i - 1 ==> (#[trigger] a.drop_first()[j] as u32) == (b.drop_first()[j]
                as u32)) by {
            assert(forall|j: int|
                0 <= j < i - 1 ==> #[trigger] a.drop_first()[j] == a[j + 1]
                    && b.drop_first()[j] == b[j + 1]);
        }
        lemma_lex_le_common_prefix(a.drop_first(), b.drop_first(), i - 1);
        assert(a.drop_first().skip(i - 1) =~= a.skip(i));
        assert(b.drop_first().skip(i - 1) =~= b.skip(i));
    }
}

/// Lexicographic comparison of two strings.
pub fn str_le(a: &str, b: &str) -> (r: bool)
    ensures
        r == lex_le(a@, b@),
{
    let na = a.unicode_len();
    let nb = b.unicode_len();
    let n = if na < nb {
        na
    } else {
        nb
    };
    let mut i: usize = 0;
    while i < n
        invariant
            na == a@.len(),
            nb == b@.len(),
            n == if na < nb {
                na as int
            } else {
                nb as int
            },
            0 <= i <= n,
            forall|j: int| 0 <= j < i ==> (a@[j] as u32) == (b@[j] as u32),
        decreases n - i,
    {
        let ca = a.get_char(i) as u32;
        let cb = b.get_char(i) as u32;
        if ca != cb {
            proof {
                lemma_lex_le_common_prefix(a@, b@, i as int);
                assert(a@.skip(i as int)[0] == a@[i as int]);
                assert(b@.skip(i as int)[0] == b@[i as int]);
            }
            return ca < cb;
        }
        i = i + 1;
    }
    proof {
        lemma_lex_le_common_prefix(a@, b@, n as int);
        if na < nb {
            assert(a@.skip(n as int).len() == 0);
        } else {
            assert(b@.skip(n as int).len() == nb - n);
        }
    }
    na <= nb
}

/// True when `needle` occurs in `hay` starting at position `at`.
pub open spec fn occurs_at(hay: Seq<char>, needle: Seq<char>, at: int) -> bool {
    0 <= at && at + needle.len() <= hay.len() && hay.subrange(at, at + needle.len()) == needle
}

/// True when `needle` occurs somewhere in `hay`.
pub open spec fn contains_seq(hay: Seq<char>, needle: Seq<char>) -> bool {
    exists|at: int| occurs_at(hay, needle, at)
}

/// Substring search; quadratic, but the strings involved are short.
pub fn contains_str(hay: &str, needle: &str) -> (r: bool)
    ensures
        r == contains_seq(hay@, needle@),
{
    let nh = hay.unicode_len();
    let nn = needle.unicode_len();
    if nn > nh {
        return false;
    }
    if nn == 0 {
        proof {
            assert(hay@.subrange(0, 0) =~= needle@);
            assert(occurs_at(hay@, needle@, 0));
        }
        return true;
    }
    let mut at: usize = 0;
    while at <= nh - nn
        invariant
            nh == hay@.len(),
            nn == needle@.len(),
            1 <= nn <= nh,
            0 <= at <= nh - nn + 1,
            forall|a: int| 0 <= a < at ==> !occurs_at(hay@, needle@, a),
        decreases nh - at,
    {
        let mut i: usize = 0;
        let mut matched = true;
        while i < nn
            invariant
                nh == hay@.len(),
                nn == needle@.len(),
                0 <= at <= nh - nn,
                0 <= i <= nn,
                matched ==> forall|j: int| 0 <= j < i ==> hay@[at + j] == needle@[j],
                !matched ==> !occurs_at(hay@, needle@, at as int),
            decreases nn - i,
        {
            if matched && hay.get_char(at + i) != needle.get_char(i) {
                proof {
                    assert(hay@.subrange(at as int, at + nn)[i as int] != needle@[i as int]);
                }
                matched = false;
            }
            i = i + 1;
        }
        if matched {
            proof {
                assert(hay@.subrange(at as int, at + nn) =~= needle@);
                assert(occurs_at(hay@, needle@, at as int));
            }
            return true;
        }
        at = at + 1;
    }
    proof {
        if contains_seq(hay@, needle@) {
            let a = choose|a: int| occurs_at(hay@, needle@, a);
            assert(!occurs_at(hay@, needle@, a));
        }
    }
    false
}

/// How many positions of `hay` start an occurrence of `needle`, below `upto`.
pub open spec fn count_occurrences_upto(hay: Seq<char>, needle: Seq<char>, upto: int) -> nat
    decreases upto,
{
    if upto <= 0 {
        0
    } else {
        count_occurrences_upto(hay, needle, upto - 1) + if occurs_at(hay, needle, upto - 1) {
            1nat
        } else {
            0nat
        }
    }
}

/// Counts the (possibly overlapping) occurrences of `needle` in `hay`.
pub fn count_occurrences(hay: &str, needle: &str) -> (r: usize)
    ensures
        r == count_occurrences_upto(hay@, needle@, hay@.len() as int),
{
    let nh = hay.unicode_len();
    let nn = needle.unicode_len();
    let mut count: usize = 0;
    let mut at: usize = 0;
    while at < nh
        invariant
            nh == hay@.len(),
            nn == needle@.len(),
            0 <= at <= nh,
            count == count_occurrences_upto(hay@, needle@, at as int),
            count <= at,
        decreases nh - at,
    {
        let mut here = false;
        if nn <= nh && at <= nh - nn {
            let mut i: usize = 0;
            let mut matched = true;
            while i < nn
                invariant
                    nh == hay@.len(),
                    nn == needle@.len(),
                    nn <= nh,
                    0 <= at <= nh - nn,
                    0 <= i <= nn,
                    matched ==> forall|j: int| 0 <= j < i ==> hay@[at + j] == needle@[j],
                    !matched ==> !occurs_at(hay@, needle@, at as int),
                decreases nn - i,
            {
                if matched && hay.get_char(at + i) != needle.get_char(i) {
                    proof {
                        assert(hay@.subrange(at as int, at + nn)[i as int] != needle@[i as int]);
                    }
                    matched = false;
                }
                i = i + 1;
            }
            if matched {
                proof {
                    assert(hay@.subrange(at as int, at + nn) =~= needle@);
                }
                here = true;
            }
        }
        proof {
            if !(nn <= nh && at <= nh - nn) {
                assert(!occurs_at(hay@, needle@, at as int));
            }
        }
        if here {
            count = count + 1;
        }
        at = at + 1;
    }
    count
}

/// Position of the first `.` in the string, if any.
pub fn find_label_dot(s: &str) -> (r: Option<usize>)
    ensures
        match r {
            Some(i) => first_dot(s@) == i,
            None => first_dot(s@) == -1,
        },
{
    let n = s.unicode_len();
    let mut i: usize = 0;
    while i < n
        invariant
            n == s@.len(),
            0 <= i <= n,
            forall|j: int| 0 <= j < i ==> s@[j] != '.',
        decreases n - i,
    {
        if s.get_char(i) == '.' {
            proof {
                lemma_first_dot(s@);
                lemma_first_dot_bound(s@);
                let f = first_dot(s@);
                assert(f != -1);
                assert(!(f < i)) by {
                    assert(s@[f] == '.');
                }
                assert(!(f > i)) by {
                    if f > i {
                        assert(s@.take(f)[i as int] == '.');
                        assert(free_of(s@.take(f), '.'));
                    }
                }
            }
            return Some(i);
        }
        i = i + 1;
    }
    proof {
        lemma_first_dot(s@);
        assert(free_of(s@, '.'));
    }
    None
}

/// Splits a string into its dot-separated labels.
pub fn split_labels(s: &str) -> (r: Vec<String>)
    ensures
        string_views(r@) == split_dots(s@),
    decreases s@.len(),
{
    match find_label_dot(s) {
        None => {
            let mut r: Vec<String> = Vec::new();
            r.push(s.to_owned());
            proof {
                assert(string_views(r@) =~= split_dots(s@));
            }
            r
        },
        Some(i) => {
            proof {
                lemma_first_dot_bound(s@);
            }
            let n = s.unicode_len();
            let head = s.substring_char(0, i);
            let tail = s.substring_char(i + 1, n);
            proof {
                assert(head@ =~= s@.take(i as int));
                assert(tail@ =~= s@.skip(i + 1));
            }
            let mut rest = split_labels(tail);
            let mut r: Vec<String> = Vec::new();
            r.push(head.to_owned());
            let mut k: usize = 0;
            let ghost restv = rest@;
            while k < rest.len()
                invariant
                    rest@ == restv,
                    0 <= k <= rest@.len(),
                    r@.len() == k + 1,
                    r@[0]@ == s@.take(first_dot(s@)),
                    forall|j: int| 1 <= j < k + 1 ==> #[trigger] r@[j]@ == rest@[j - 1]@,
                decreases rest@.len() - k,
            {
                r.push(rest[k].clone());
                k = k + 1;
            }
            proof {
                assert(string_views(r@) =~= seq![s@.take(first_dot(s@))] + split_dots(
                    s@.skip(first_dot(s@) + 1),
                ));
            }
            r
        },
    }
}

/// Joins labels with dots; the inverse of `split_labels`.
pub fn join_labels(parts: &Vec<String>) -> (r: String)
    requires
        parts@.len() >= 1,
    ensures
        r@ == join_dots(string_views(parts@)),
{
    let mut r: String = parts[0].clone();
    let n = parts.len();
    let mut i: usize = 1;
    while i < n
        invariant
            n == parts@.len(),
            1 <= i <= n,
            r@ == join_dots(string_views(parts@).take(i as int)),
        decreases n - i,
    {
        let ghost prev = r@;
        r.append(".");
        r.append(parts[i].as_str());
        proof {
            reveal_strlit(".");
            let pv = string_views(parts@);
            lemma_join_push(pv.take(i as int), pv[i as int]);
            assert(pv.take(i as int).push(pv[i as int]) =~= pv.take(i + 1));
            assert(r@ =~= prev + seq!['.'] + pv[i as int]);
        }
        i = i + 1;
    }
    proof {
        assert(string_views(parts@).take(n as int) =~= string_views(parts@));
    }
    r
}

/// Appending one more label to a join appends a dot and the label.
pub proof fn lemma_join_push(parts: Seq<Seq<char>>, p: Seq<char>)
    requires
        parts.len() >= 1,
    ensures
        join_dots(parts.push(p)) == join_dots(parts) + seq!['.'] + p,
    decreases parts.len(),
{
    if parts.len() == 1 {
        let w = parts.push(p);
        assert(w.drop_first() =~= seq![p]);
        assert(join_dots(w.drop_first()) == p);
        assert(join_dots(w) == parts[0] + seq!['.'] + p);
    } else {
        lemma_join_push(parts.drop_first(), p);
        let w = parts.push(p);
        assert(w.drop_first() =~= parts.drop_first().push(p));
        assert(join_dots(w) == w[0] + seq!['.'] + join_dots(w.drop_first()));
        assert(join_dots(parts) + seq!['.'] + p =~= parts[0] + seq!['.'] + (join_dots(
            parts.drop_first(),
        ) + seq!['.'] + p));
    }
}



/// The character of one decimal digit.
pub open spec fn spec_digit_char(d: int) -> char {
    ((48 + d) as u8) as char
}

/// The decimal rendering of a non-negative number, most significant first.
pub open spec fn dec_rep(n: int) -> Seq<char>
    decreases n,
{
    if n < 10 {
        seq![spec_digit_char(n)]
    } else {
        dec_rep(n / 10).push(spec_digit_char(n % 10))
    }
}

/// The text of one decimal digit.
fn digit_str(d: u8) -> (r: &'static str)
    requires
        d <= 9,
    ensures
        r@ == seq![spec_digit_char(d as int)],
{
    proof {
        reveal_strlit("0");
        reveal_strlit("1");
        reveal_strlit("2");
        reveal_strlit("3");
        reveal_strlit("4");
        reveal_strlit("5");
        reveal_strlit("6");
        reveal_strlit("7");
        reveal_strlit("8");
        reveal_strlit("9");
        assert("0"@ =~= seq!['0']);
        assert("1"@ =~= seq!['1']);
        assert("2"@ =~= seq!['2']);
        assert("3"@ =~= seq!['3']);
        assert("4"@ =~= seq!['4']);
        assert("5"@ =~= seq!['5']);
        assert("6"@ =~= seq!['6']);
        assert("7"@ =~= seq!['7']);
        assert("8"@ =~= seq!['8']);
        assert("9"@ =~= seq!['9']);
    }
    match d {
        0 => "0",
        1 => "1",
        2 => "2",
        3 => "3",
        4 => "4",
        5 => "5",
        6 => "6",
        7 => "7",
        8 => "8",
        _ => "9",
    }
}

/// Renders a number in decimal.
pub fn u64_to_string(n: u64) -> (r: String)
    ensures
        r@ == dec_rep(n as int),
    decreases n,
{
    if n < 10 {
        digit_str(n as u8).to_owned()
    } else {
        let mut s = u64_to_string(n / 10);
        s.append(digit_str((n % 10) as u8));
        proof {
            assert(s@ =~= dec_rep((n / 10) as int).push(spec_digit_char((n % 10) as int)));
        }
        s
    }
}



/// What lowercasing produces: a function of the characters alone.
pub uninterp spec fn lower_of(s: Seq<char>) -> Seq<char>;

/// Relies on str::to_lowercase from std: the result depends on the
/// characters of the input alone, and an empty string stays empty.
#[verifier::external_body]
pub fn lowercase(s: &str) -> (r: String)
    ensures
        r@ == lower_of(s@),
        s@.len() == 0 ==> r@.len() == 0,
{
    s.to_lowercase()
}



/// Whether the character is whitespace that trimming removes.
pub open spec fn is_ws(c: char) -> bool {
    c == ' ' || c == '\t' || c == '\r' || c == '\n'
}

/// The string without its leading whitespace.
pub open spec fn trim_front(s: Seq<char>) -> Seq<char>
    decreases s.len(),
{
    if s.len() > 0 && is_ws(s[0]) {
        trim_front(s.drop_first())
    } else {
        s
    }
}

/// The string without its trailing whitespace.
pub open spec fn trim_back(s: Seq<char>) -> Seq<char>
    decreases s.len(),
{
    if s.len() > 0 && is_ws(s.last()) {
        trim_back(s.drop_last())
    } else {
        s
    }
}

/// The string without leading and trailing whitespace.
pub open spec fn spec_trim(s: Seq<char>) -> Seq<char> {
    trim_back(trim_front(s))
}

/// `trim_front` drops exactly the whitespace prefix.
proof fn lemma_trim_front(s: Seq<char>, i: int)
    requires
        0 <= i <= s.len(),
        forall|k: int| 0 <= k < i ==> is_ws(#[trigger] s[k]),
        i < s.len() ==> !is_ws(s[i]),
    ensures
        trim_front(s) == s.skip(i),
    decreases i,
{
    if i == 0 {
        assert(s.skip(0) =~= s);
    } else {
        assert(is_ws(s[0]));
        assert(forall|k: int| 0 <= k < i - 1 ==> is_ws(#[trigger] s.drop_first()[k]));
        lemma_trim_front(s.drop_first(), i - 1);
        assert(s.drop_first().skip(i - 1) =~= s.skip(i));
    }
}

/// `trim_back` drops exactly the whitespace suffix.
proof fn lemma_trim_back(s: Seq<char>, j: int)
    requires
        -1 <= j < s.len(),
        forall|k: int| j < k < s.len() ==> is_ws(#[trigger] s[k]),
        j >= 0 ==> !is_ws(s[j]),
    ensures
        trim_back(s) == s.take(j + 1),
    decreases s.len() - j,
{
    if j == s.len() - 1 {
        assert(s.take(j + 1) =~= s);
    } else {
        assert(is_ws(s.last()));
        assert(forall|k: int| j < k < s.drop_last().len() ==> is_ws(#[trigger] s.drop_last()[k]));
        lemma_trim_back(s.drop_last(), j);
        assert(s.drop_last().take(j + 1) =~= s.take(j + 1));
    }
}

/// Whether the character is whitespace that trimming removes.
fn is_ws_char(c: char) -> (r: bool)
    ensures
        r == is_ws(c),
{
    c == ' ' || c == '\t' || c == '\r' || c == '\n'
}

/// The string without leading and trailing whitespace.
pub fn trim_ws(s: &str) -> (r: &str)
    ensures
        r@ == spec_trim(s@),
{
    let n = s.unicode_len();
    let mut i: usize = 0;
    while i < n && is_ws_char(s.get_char(i))
        invariant
            n == s@.len(),
            0 <= i <= n,
            forall|k: int| 0 <= k < i ==> is_ws(#[trigger] s@[k]),
        decreases n - i,
    {
        i = i + 1;
    }
    if i == n {
        proof {
            lemma_trim_front(s@, n as int);
            assert(s@.skip(n as int).len() == 0);
            assert(trim_back(s@.skip(n as int)) == s@.skip(n as int));
            reveal_strlit("");
            assert(""@ =~= s@.skip(n as int));
        }
        return "";
    }
    let mut j: usize = n - 1;
    while j > i && is_ws_char(s.get_char(j))
        invariant
            n == s@.len(),
            0 <= i <= j < n,
            forall|k: int| j < k < n ==> is_ws(#[trigger] s@[k]),
        decreases j,
    {
        j = j - 1;
    }
    proof {
        lemma_trim_front(s@, i as int);
        assert(!is_ws(s@[j as int]));
        assert(forall|k: int|
            0 <= k < s@.skip(i as int).len() ==> #[trigger] s@.skip(i as int)[k] == s@[k + i]);
        assert(forall|k: int|
            j - i < k < s@.skip(i as int).len() ==> is_ws(#[trigger] s@.skip(i as int)[k]));
        assert(!is_ws(s@.skip(i as int)[j - i]));
        lemma_trim_back(s@.skip(i as int), j - i);
        assert(s@.skip(i as int).take(j - i + 1) =~= s@.subrange(i as int, j + 1));
    }
    s.substring_char(i, j + 1)
}


} // verus!
