use vstd::prelude::*;

verus! {

/// Whether a character is white space in Unicode's sense: one of the 25
/// code points with the property White_Space.
pub open spec fn is_white(c: char) -> bool {
    ('\u{9}' <= c && c <= '\u{d}') || c == ' ' || c == '\u{85}' || c == '\u{a0}'
        || c == '\u{1680}' || ('\u{2000}' <= c && c <= '\u{200a}') || c == '\u{2028}'
        || c == '\u{2029}' || c == '\u{202f}' || c == '\u{205f}' || c == '\u{3000}'
}

/// Relies on `char::is_whitespace`: true exactly for the code points with
/// Unicode's White_Space property.
#[verifier::external_body]
fn white(c: char) -> (r: bool)
    ensures
        r == is_white(c),
{
    c.is_whitespace()
}

/// The characters of a string, in order.
pub(crate) fn chars_of(s: &str) -> (r: Vec<char>)
    ensures
        r@ == s@,
{
    let n = s.unicode_len();
    let mut r: Vec<char> = Vec::new();
    let mut i: usize = 0;
    while i < n
        invariant
            i <= n,
            n == s@.len(),
            r@ =~= s@.take(i as int),
        decreases n - i,
    {
        r.push(s.get_char(i));
        i += 1;
    }
    r
}

/// Relies on `String`'s `FromIterator<char>`: a string of these characters, in order.
#[verifier::external_body]
pub(crate) fn string_of(v: &Vec<char>) -> (r: String)
    ensures
        r@ == v@,
{
    v.iter().collect()
}

/// `s` without its leading white space.
pub open spec fn trim_start(s: Seq<char>) -> Seq<char>
    decreases s.len(),
{
    if s.len() > 0 && is_white(s[0]) {
        trim_start(s.drop_first())
    } else {
        s
    }
}

/// `s` without its trailing white space.
pub open spec fn trim_end(s: Seq<char>) -> Seq<char>
    decreases s.len(),
{
    if s.len() > 0 && is_white(s.last()) {
        trim_end(s.drop_last())
    } else {
        s
    }
}

/// `s` without its leading and trailing white space.
pub open spec fn trimmed(s: Seq<char>) -> Seq<char> {
    trim_end(trim_start(s))
}

/// A trimmed text neither starts nor ends with white space.
pub proof fn lemma_trimmed_has_no_outer_white(s: Seq<char>)
    ensures
        trimmed(s).len() > 0 ==> !is_white(trimmed(s)[0]) && !is_white(trimmed(s).last()),
    decreases s.len(),
{
    if s.len() > 0 && is_white(s[0]) {
        lemma_trimmed_has_no_outer_white(s.drop_first());
    } else {
        lemma_trim_end_keeps_start(s);
    }
}

/// Removing trailing white space from a text that does not start with it
/// leaves a text that does not start with it.
proof fn lemma_trim_end_keeps_start(s: Seq<char>)
    requires
        s.len() == 0 || !is_white(s[0]),
    ensures
        trim_end(s).len() > 0 ==> !is_white(trim_end(s)[0]) && !is_white(trim_end(s).last()),
    decreases s.len(),
{
    if s.len() > 0 && is_white(s.last()) {
        if s.len() > 1 {
            assert(s.drop_last()[0] == s[0]);
        }
        lemma_trim_end_keeps_start(s.drop_last());
    }
}

/// The characters of `v` without leading and trailing white space.
pub fn trim_chars(v: &Vec<char>) -> (r: Vec<char>)
    ensures
        r@ == trimmed(v@),
{
    let n = v.len();
    let mut i: usize = 0;
    assert(v@.subrange(0, n as int) =~= v@);
    while i < n && white(v[i])
        invariant
            i <= n,
            n == v@.len(),
            trim_start(v@) == trim_start(v@.subrange(i as int, n as int)),
        decreases n - i,
    {
        assert(v@.subrange(i as int, n as int).drop_first() =~= v@.subrange(i + 1, n as int));
        i += 1;
    }
    assert(trim_start(v@.subrange(i as int, n as int)) == v@.subrange(i as int, n as int));
    let mut j: usize = n;
    while j > i && white(v[j - 1])
        invariant
            i <= j <= n,
            n == v@.len(),
            trimmed(v@) == trim_end(v@.subrange(i as int, j as int)),
        decreases j,
    {
        assert(v@.subrange(i as int, j as int).drop_last() =~= v@.subrange(i as int, j - 1));
        j -= 1;
    }
    let mut r: Vec<char> = Vec::new();
    let mut k: usize = i;
    while k < j
        invariant
            i <= k <= j,
            j <= n,
            n == v@.len(),
            r@ =~= v@.subrange(i as int, k as int),
        decreases j - k,
    {
        r.push(v[k]);
        k += 1;
    }
    r
}

/// `s` with each en dash (U+2013) written as an ASCII hyphen.
pub open spec fn dashes_to_hyphens(s: Seq<char>) -> Seq<char> {
    s.map_values(|c: char| if c == '\u{2013}' { '-' } else { c })
}

/// Writes each en dash of `s` as an ASCII hyphen.
pub fn normalize_time(s: &str) -> (r: String)
    ensures
        r@ == dashes_to_hyphens(s@),
{
    let v = chars_of(s);
    let mut out: Vec<char> = Vec::new();
    let mut i: usize = 0;
    while i < v.len()
        invariant
            i <= v@.len(),
            v@ == s@,
            out@ =~= dashes_to_hyphens(v@.subrange(0, i as int)),
        decreases v@.len() - i,
    {
        let c = v[i];
        if c == '\u{2013}' {
            out.push('-');
        } else {
            out.push(c);
        }
        i += 1;
    }
    assert(v@.subrange(0, v@.len() as int) =~= v@);
    string_of(&out)
}

/// The number of slashes among the first `i` characters of `s`.
pub open spec fn slashes(s: Seq<char>, i: int) -> nat
    decreases i,
{
    if i <= 0 {
        0
    } else {
        slashes(s, i - 1) + if s[i - 1] == '/' { 1nat } else { 0nat }
    }
}

/// Among the first `i` characters of `s`, those of segment `k`: the
/// characters other than `/` that have exactly `k` slashes before them.
pub open spec fn segment_upto(s: Seq<char>, k: nat, i: int) -> Seq<char>
    decreases i,
{
    if i <= 0 {
        Seq::empty()
    } else if s[i - 1] != '/' && slashes(s, i - 1) == k {
        segment_upto(s, k, i - 1).push(s[i - 1])
    } else {
        segment_upto(s, k, i - 1)
    }
}

/// Segment `k` (from 0) of `s` split on `/`; there is one when `s` has at
/// least `k` slashes.
pub open spec fn segment(s: Seq<char>, k: nat) -> Option<Seq<char>> {
    if slashes(s, s.len() as int) >= k {
        Some(segment_upto(s, k, s.len() as int))
    } else {
        None
    }
}

/// Segment `k` (from 0) of `s` split on `/`, or `None` when `s` has fewer
/// than `k + 1` segments.
pub fn path_segment(s: &str, k: usize) -> (r: Option<String>)
    ensures
        r is None <==> segment(s@, k as nat) is None,
        r matches Some(t) ==> segment(s@, k as nat) == Some(t@),
{
    let v = chars_of(s);
    let mut out: Vec<char> = Vec::new();
    let mut seen: usize = 0;
    let mut i: usize = 0;
    while i < v.len()
        invariant
            i <= v@.len(),
            v@ == s@,
            seen as nat == slashes(v@, i as int),
            seen <= i,
            out@ == segment_upto(v@, k as nat, i as int),
        decreases v@.len() - i,
    {
        let c = v[i];
        if c == '/' {
            seen += 1;
        } else if seen == k {
            out.push(c);
        }
        i += 1;
    }
    if seen >= k {
        Some(string_of(&out))
    } else {
        None
    }
}

} // verus!
