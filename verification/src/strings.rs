//! Character-sequence primitives used by the router: prefix/suffix tests,
//! literal trimming that strips every repetition of the pattern (as
//! `str::trim_start_matches` and `str::trim_end_matches` do), and splitting
//! on a separator character.

use vstd::prelude::*;

verus! {

pub open spec fn starts_with(s: Seq<char>, p: Seq<char>) -> bool {
    p.len() <= s.len() && s.subrange(0, p.len() as int) == p
}

pub open spec fn ends_with(s: Seq<char>, p: Seq<char>) -> bool {
    p.len() <= s.len() && s.subrange(s.len() as int - p.len() as int, s.len() as int) == p
}

/// Repeatedly removes `p` from the front of `s`, as long as it is a prefix.
pub open spec fn trim_prefix(s: Seq<char>, p: Seq<char>) -> Seq<char>
    decreases s.len(),
{
    if p.len() > 0 && starts_with(s, p) {
        trim_prefix(s.subrange(p.len() as int, s.len() as int), p)
    } else {
        s
    }
}

/// Repeatedly removes `p` from the back of `s`, as long as it is a suffix.
pub open spec fn trim_suffix(s: Seq<char>, p: Seq<char>) -> Seq<char>
    decreases s.len(),
{
    if p.len() > 0 && ends_with(s, p) {
        trim_suffix(s.subrange(0, s.len() as int - p.len() as int), p)
    } else {
        s
    }
}

/// Index of the first occurrence of `c1` or `c2` in `s[a..b]`, or `b` if none.
pub open spec fn find_first(s: Seq<char>, a: int, b: int, c1: char, c2: char) -> int
    decreases b - a,
{
    if a < b {
        if s[a] == c1 || s[a] == c2 {
            a
        } else {
            find_first(s, a + 1, b, c1, c2)
        }
    } else {
        b
    }
}

pub proof fn lemma_find_first(s: Seq<char>, a: int, b: int, c1: char, c2: char)
    requires
        0 <= a <= b <= s.len(),
    ensures
        a <= find_first(s, a, b, c1, c2) <= b,
        forall|j: int|
            a <= j < find_first(s, a, b, c1, c2) ==> s[j] != c1 && s[j] != c2,
        find_first(s, a, b, c1, c2) < b ==> (s[find_first(s, a, b, c1, c2)] == c1
            || s[find_first(s, a, b, c1, c2)] == c2),
    decreases b - a,
{
    if a < b && !(s[a] == c1 || s[a] == c2) {
        lemma_find_first(s, a + 1, b, c1, c2);
    }
}

pub proof fn lemma_find_first_is(s: Seq<char>, a: int, b: int, c1: char, c2: char, k: int)
    requires
        0 <= a <= k <= b <= s.len(),
        forall|j: int| a <= j < k ==> s[j] != c1 && s[j] != c2,
        k < b ==> (s[k] == c1 || s[k] == c2),
    ensures
        find_first(s, a, b, c1, c2) == k,
{
    lemma_find_first(s, a, b, c1, c2);
    let f = find_first(s, a, b, c1, c2);
    if f < k {
        assert(s[f] != c1 && s[f] != c2);
    }
    if k < f {
        assert(s[k] != c1 && s[k] != c2);
    }
}

/// The pieces of `s[a..]` between occurrences of `c`, in order; an empty
/// piece stands between adjacent separators and at either edge.
pub open spec fn split_from(s: Seq<char>, a: int, c: char) -> Seq<Seq<char>>
    decreases s.len() - a,
    when 0 <= a <= s.len()
{
    let i = find_first(s, a, s.len() as int, c, c);
    if i == s.len() as int {
        seq![s.subrange(a, s.len() as int)]
    } else if a <= i < s.len() as int {
        seq![s.subrange(a, i)] + split_from(s, i + 1, c)
    } else {
        Seq::empty()
    }
}

pub fn str_eq(a: &str, b: &str) -> (r: bool)
    ensures
        r == (a@ == b@),
{
    let n = a.unicode_len();
    if n != b.unicode_len() {
        return false;
    }
    let mut i: usize = 0;
    while i < n
        invariant
            i <= n,
            n == a@.len(),
            n == b@.len(),
            forall|j: int| 0 <= j < i ==> a@[j] == b@[j],
        decreases n - i,
    {
        if a.get_char(i) != b.get_char(i) {
            return false;
        }
        i += 1;
    }
    proof {
        assert(a@ =~= b@);
    }
    true
}

pub fn starts_with_str(s: &str, p: &str) -> (r: bool)
    ensures
        r == starts_with(s@, p@),
{
    let sn = s.unicode_len();
    let pn = p.unicode_len();
    if pn > sn {
        return false;
    }
    let mut i: usize = 0;
    while i < pn
        invariant
            i <= pn <= sn,
            sn == s@.len(),
            pn == p@.len(),
            forall|j: int| 0 <= j < i ==> s@[j] == p@[j],
        decreases pn - i,
    {
        if s.get_char(i) != p.get_char(i) {
            proof {
                assert(s@.subrange(0, pn as int)[i as int] == s@[i as int]);
            }
            return false;
        }
        i += 1;
    }
    proof {
        assert(s@.subrange(0, pn as int) =~= p@);
    }
    true
}

pub fn ends_with_str(s: &str, p: &str) -> (r: bool)
    ensures
        r == ends_with(s@, p@),
{
    let sn = s.unicode_len();
    let pn = p.unicode_len();
    if pn > sn {
        return false;
    }
    let off = sn - pn;
    let mut i: usize = 0;
    while i < pn
        invariant
            i <= pn <= sn,
            sn == s@.len(),
            pn == p@.len(),
            off == sn - pn,
            forall|j: int| 0 <= j < i ==> s@[off + j] == p@[j],
        decreases pn - i,
    {
        if s.get_char(off + i) != p.get_char(i) {
            proof {
                assert(s@.subrange(off as int, sn as int)[i as int] == s@[off + i]);
            }
            return false;
        }
        i += 1;
    }
    proof {
        assert(s@.subrange(off as int, sn as int) =~= p@);
    }
    true
}

pub fn trim_prefix_str<'a>(s: &'a str, p: &str) -> (r: &'a str)
    ensures
        r@ == trim_prefix(s@, p@),
{
    let pn = p.unicode_len();
    if pn == 0 {
        return s;
    }
    let mut cur: &'a str = s;
    loop
        invariant
            pn == p@.len(),
            pn > 0,
            trim_prefix(s@, p@) == trim_prefix(cur@, p@),
        decreases cur@.len(),
    {
        if starts_with_str(cur, p) {
            let cn = cur.unicode_len();
            cur = cur.substring_char(pn, cn);
        } else {
            return cur;
        }
    }
}

pub fn trim_suffix_str<'a>(s: &'a str, p: &str) -> (r: &'a str)
    ensures
        r@ == trim_suffix(s@, p@),
{
    let pn = p.unicode_len();
    if pn == 0 {
        return s;
    }
    let mut cur: &'a str = s;
    loop
        invariant
            pn == p@.len(),
            pn > 0,
            trim_suffix(s@, p@) == trim_suffix(cur@, p@),
        decreases cur@.len(),
    {
        if ends_with_str(cur, p) {
            let cn = cur.unicode_len();
            cur = cur.substring_char(0, cn - pn);
        } else {
            return cur;
        }
    }
}

pub fn split_by_str(s: &str, c: char) -> (r: Vec<String>)
    ensures
        r.deep_view() == split_from(s@, 0, c),
{
    let n = s.unicode_len();
    let mut parts: Vec<String> = Vec::new();
    let mut start: usize = 0;
    let mut i: usize = 0;
    while i < n
        invariant
            start <= i <= n,
            n == s@.len(),
            forall|j: int| start <= j < i ==> s@[j] != c,
            split_from(s@, 0, c) == parts.deep_view() + split_from(s@, start as int, c),
        decreases n - i,
    {
        if s.get_char(i) == c {
            let piece = s.substring_char(start, i).to_owned();
            let ghost old_parts = parts.deep_view();
            parts.push(piece);
            proof {
                lemma_find_first_is(s@, start as int, n as int, c, c, i as int);
                assert(split_from(s@, start as int, c) == seq![s@.subrange(
                    start as int,
                    i as int,
                )] + split_from(s@, i + 1, c));
                assert(parts.deep_view() =~= old_parts.push(piece@));
                assert(parts.deep_view() + split_from(s@, i + 1, c) =~= old_parts + (seq![
                    s@.subrange(start as int, i as int),
                ] + split_from(s@, i + 1, c)));
            }
            start = i + 1;
            i += 1;
        } else {
            i += 1;
        }
    }
    let piece = s.substring_char(start, n).to_owned();
    let ghost old_parts = parts.deep_view();
    parts.push(piece);
    proof {
        lemma_find_first_is(s@, start as int, n as int, c, c, n as int);
        assert(split_from(s@, start as int, c) == seq![s@.subrange(start as int, n as int)]);
        assert(parts.deep_view() =~= old_parts.push(piece@));
        assert(parts.deep_view() =~= old_parts + split_from(s@, start as int, c));
    }
    parts
}

} // verus!
