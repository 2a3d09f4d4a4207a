use vstd::prelude::*;
use crate::text::chars_of;

verus! {

/// A decimal number, `mantissa / 10^scale`: `7.4` is mantissa 74 at scale 1,
/// and `1e1` is mantissa 1 at scale -1.
#[derive(Clone, Copy, Debug, PartialEq, Eq, Structural)]
pub struct Rating {
    pub mantissa: u64,
    pub scale: i64,
}

pub open spec fn is_digit(c: char) -> bool {
    '0' <= c && c <= '9'
}

pub open spec fn all_digits(s: Seq<char>) -> bool {
    forall|i: int| 0 <= i < s.len() ==> is_digit(#[trigger] s[i])
}

/// The value of a run of decimal digits.
pub open spec fn digits_value(s: Seq<char>) -> int
    decreases s.len(),
{
    if s.len() == 0 {
        0
    } else {
        digits_value(s.drop_last()) * 10 + (s.last() as int - '0' as int)
    }
}

/// How many digits `s` starts with.
pub open spec fn digit_run(s: Seq<char>) -> nat
    decreases s.len(),
{
    if s.len() > 0 && is_digit(s[0]) {
        1 + digit_run(s.drop_first())
    } else {
        0
    }
}

/// The parts of a number text: its digits without the point, how many of
/// them follow the point, whether the exponent is negative, and the digits of
/// the exponent.
///
/// The text is an optional `+`; then digits with an optional point, with at
/// least one digit before or after it; then an optional exponent: `e` or
/// `E`, an optional sign and one or more digits. Any other text (a leading
/// `-`, `inf`, `NaN`, a lone point) has no parts.
pub open spec fn number_parts(s: Seq<char>) -> Option<(Seq<char>, nat, bool, Seq<char>)> {
    let b = unsigned_text(s);
    let p = digit_run(b) as int;
    let q = frac_start(b);
    let t = q + frac_len(b);
    let digits = b.take(p) + b.subrange(q, t);
    if p + frac_len(b) == 0 {
        None
    } else if t == b.len() {
        Some((digits, frac_len(b) as nat, false, Seq::empty()))
    } else if b[t] == 'e' || b[t] == 'E' {
        match exponent_parts(b.skip(t + 1)) {
            Some((negative, e)) => Some((digits, frac_len(b) as nat, negative, e)),
            None => None,
        }
    } else {
        None
    }
}

/// The text without its leading `+`, if it has one.
pub open spec fn unsigned_text(s: Seq<char>) -> Seq<char> {
    if s.len() > 0 && s[0] == '+' {
        s.drop_first()
    } else {
        s
    }
}

/// Whether the leading digits of `b` are followed by a point.
pub open spec fn has_point(b: Seq<char>) -> bool {
    digit_run(b) < b.len() && b[digit_run(b) as int] == '.'
}

/// Where the digits after the point start (past the leading digits when
/// there is no point).
pub open spec fn frac_start(b: Seq<char>) -> int {
    if has_point(b) {
        digit_run(b) as int + 1
    } else {
        digit_run(b) as int
    }
}

/// How many digits follow the point.
pub open spec fn frac_len(b: Seq<char>) -> int {
    if has_point(b) {
        digit_run(b.skip(frac_start(b))) as int
    } else {
        0
    }
}

/// The sign and the digits of an exponent written after its `e`: an
/// optional sign and one or more digits.
pub open spec fn exponent_parts(x: Seq<char>) -> Option<(bool, Seq<char>)> {
    let signed = x.len() > 0 && (x[0] == '+' || x[0] == '-');
    let u = if signed {
        1int
    } else {
        0int
    };
    if u < x.len() && all_digits(x.skip(u)) {
        Some((signed && x[0] == '-', x.skip(u)))
    } else {
        None
    }
}

/// The rating a number text denotes. A text without parts gives `None`.
/// So does a number that a `Rating` cannot hold: one whose digits, or whose
/// exponent's digits, do not fit in a `u64`, or whose scale does not fit in
/// an `i64`.
pub open spec fn rating_of(s: Seq<char>) -> Option<Rating> {
    match number_parts(s) {
        Some((d, f, negative, e)) => {
            let m = digits_value(d);
            let x = digits_value(e);
            let scale = if negative {
                f + x
            } else {
                f - x
            };
            if m <= u64::MAX && x <= u64::MAX && i64::MIN <= scale <= i64::MAX {
                Some(Rating { mantissa: m as u64, scale: scale as i64 })
            } else {
                None
            }
        },
        None => None,
    }
}

proof fn lemma_digits_value_nonneg(s: Seq<char>)
    requires
        all_digits(s),
    ensures
        digits_value(s) >= 0,
    decreases s.len(),
{
    if s.len() > 0 {
        assert(all_digits(s.drop_last())) by {
            assert forall|i: int| 0 <= i < s.drop_last().len() implies is_digit(
                #[trigger] s.drop_last()[i],
            ) by {
                assert(s.drop_last()[i] == s[i]);
            }
        }
        lemma_digits_value_nonneg(s.drop_last());
    }
}

proof fn lemma_digit_run(s: Seq<char>, i: int)
    requires
        0 <= i <= s.len(),
        forall|k: int| 0 <= k < i ==> is_digit(#[trigger] s[k]),
        i == s.len() || !is_digit(s[i]),
    ensures
        digit_run(s) == i,
    decreases i,
{
    if i > 0 {
        assert forall|k: int| 0 <= k < i - 1 implies is_digit(#[trigger] s.drop_first()[k]) by {
            assert(s.drop_first()[k] == s[k + 1]);
        }
        lemma_digit_run(s.drop_first(), i - 1);
    }
}

/// The value of a run of digits, when it fits in a `u64`.
fn digits_to_u64(d: &Vec<char>) -> (r: Option<u64>)
    requires
        all_digits(d@),
    ensures
        r is Some <==> digits_value(d@) <= u64::MAX,
        r matches Some(m) ==> m == digits_value(d@),
{
    let mut m: u64 = 0;
    let mut fits = true;
    let mut i: usize = 0;
    while i < d.len()
        invariant
            i <= d@.len(),
            all_digits(d@),
            fits ==> m == digits_value(d@.take(i as int)),
            !fits ==> digits_value(d@.take(i as int)) > u64::MAX,
        decreases d@.len() - i,
    {
        let c = d[i];
        proof {
            assert(is_digit(d@[i as int]));
            assert(d@.take(i + 1).drop_last() =~= d@.take(i as int));
            assert(all_digits(d@.take(i as int))) by {
                assert forall|k: int| 0 <= k < i implies is_digit(
                    #[trigger] d@.take(i as int)[k],
                ) by {
                    assert(d@.take(i as int)[k] == d@[k]);
                }
            }
            lemma_digits_value_nonneg(d@.take(i as int));
        }
        let dv: u64 = (c as u32 - '0' as u32) as u64;
        if fits {
            match m.checked_mul(10) {
                Some(a) => match a.checked_add(dv) {
                    Some(b) => {
                        m = b;
                    },
                    None => {
                        fits = false;
                    },
                },
                None => {
                    fits = false;
                },
            }
        }
        i += 1;
    }
    assert(d@.take(d@.len() as int) =~= d@);
    if fits {
        Some(m)
    } else {
        None
    }
}

/// Where the run of digits that starts at `lo` ends.
fn digit_end(v: &Vec<char>, lo: usize) -> (e: usize)
    requires
        lo <= v@.len(),
    ensures
        lo <= e <= v@.len(),
        forall|k: int| lo <= k < e ==> is_digit(#[trigger] v@[k]),
        e == v@.len() || !is_digit(v@[e as int]),
        digit_run(v@.skip(lo as int)) == e - lo,
{
    let mut e: usize = lo;
    while e < v.len() && '0' <= v[e] && v[e] <= '9'
        invariant
            lo <= e <= v@.len(),
            forall|k: int| lo <= k < e ==> is_digit(#[trigger] v@[k]),
        decreases v@.len() - e,
    {
        e += 1;
    }
    proof {
        let b = v@.skip(lo as int);
        assert forall|k: int| 0 <= k < e - lo implies is_digit(#[trigger] b[k]) by {
            assert(b[k] == v@[lo + k]);
        }
        if e < v@.len() {
            assert(b[e - lo] == v@[e as int]);
        }
        lemma_digit_run(b, e - lo);
    }
    e
}

/// Appends the characters at positions `lo .. hi` of `v` to `d`.
fn push_range(d: &mut Vec<char>, v: &Vec<char>, lo: usize, hi: usize)
    requires
        lo <= hi <= v@.len(),
    ensures
        final(d)@ == old(d)@ + v@.subrange(lo as int, hi as int),
{
    let mut k: usize = lo;
    while k < hi
        invariant
            lo <= k <= hi,
            hi <= v@.len(),
            d@ =~= old(d)@ + v@.subrange(lo as int, k as int),
        decreases hi - k,
    {
        d.push(v[k]);
        k += 1;
    }
}

proof fn lemma_all_digits_run(s: Seq<char>)
    requires
        all_digits(s),
    ensures
        digit_run(s) == s.len(),
{
    lemma_digit_run(s, s.len() as int);
}

/// The sign and digits of the exponent written at positions `lo ..` of `v`.
fn exponent_at(v: &Vec<char>, lo: usize) -> (r: Option<(bool, Vec<char>)>)
    requires
        lo <= v@.len(),
    ensures
        r is None <==> exponent_parts(v@.skip(lo as int)) is None,
        r matches Some((negative, e)) ==> exponent_parts(v@.skip(lo as int)) == Some(
            (negative, e@),
        ) && all_digits(e@),
{
    let n = v.len();
    let ghost x = v@.skip(lo as int);
    let mut u = lo;
    let mut negative = false;
    if u < n && (v[u] == '+' || v[u] == '-') {
        assert(x[0] == v@[lo as int]);
        negative = v[u] == '-';
        u += 1;
    } else if u < n {
        assert(x[0] == v@[lo as int]);
    }
    assert(x.skip(u - lo) =~= v@.skip(u as int));
    if u >= n {
        return None;
    }
    let end = digit_end(&v, u);
    if end < n {
        proof {
            if all_digits(v@.skip(u as int)) {
                lemma_all_digits_run(v@.skip(u as int));
            }
        }
        return None;
    }
    let mut e: Vec<char> = Vec::new();
    push_range(&mut e, &v, u, n);
    proof {
        assert(e@ =~= v@.skip(u as int));
        assert forall|k: int| 0 <= k < e@.len() implies is_digit(#[trigger] e@[k]) by {
            assert(e@[k] == v@[u + k]);
        }
    }
    Some((negative, e))
}

/// Where, in the text `v` read from `start`, the leading digits end (`p`),
/// the digits after the point start (`q`) and end (`t`).
fn layout(v: &Vec<char>, start: usize) -> (r: (usize, usize, usize))
    requires
        start <= v@.len(),
    ensures
        start <= r.0 <= r.1 <= r.2 <= v@.len(),
        r.0 - start == digit_run(v@.skip(start as int)),
        r.1 - start == frac_start(v@.skip(start as int)),
        r.2 - r.1 == frac_len(v@.skip(start as int)),
        forall|k: int| start <= k < r.0 ==> is_digit(#[trigger] v@[k]),
        forall|k: int| r.1 <= k < r.2 ==> is_digit(#[trigger] v@[k]),
{
    let n = v.len();
    let ghost b = v@.skip(start as int);
    let p = digit_end(&v, start);
    let point = p < n && v[p] == '.';
    proof {
        if p < n {
            assert(b[p - start] == v@[p as int]);
        }
        assert(point == has_point(b));
    }
    if point {
        let q = p + 1;
        let t = digit_end(&v, q);
        assert(b.skip(q - start) =~= v@.skip(q as int));
        (p, q, t)
    } else {
        (p, p, p)
    }
}

/// The digits at positions `start .. p` and `q .. t` of `v`.
fn digits_between(v: &Vec<char>, start: usize, p: usize, q: usize, t: usize) -> (d: Vec<char>)
    requires
        start <= p <= q <= t <= v@.len(),
        forall|k: int| start <= k < p ==> is_digit(#[trigger] v@[k]),
        forall|k: int| q <= k < t ==> is_digit(#[trigger] v@[k]),
    ensures
        d@ == v@.subrange(start as int, p as int) + v@.subrange(q as int, t as int),
        all_digits(d@),
{
    let mut d: Vec<char> = Vec::new();
    push_range(&mut d, v, start, p);
    push_range(&mut d, v, q, t);
    proof {
        assert forall|k: int| 0 <= k < d@.len() implies is_digit(#[trigger] d@[k]) by {
            if k < p - start {
                assert(d@[k] == v@[start + k]);
            } else {
                assert(d@[k] == v@[q + k - (p - start)]);
            }
        }
    }
    d
}

/// The parts of the number text `v`, as `number_parts` gives them.
fn parts_of(v: &Vec<char>) -> (r: Option<(Vec<char>, usize, bool, Vec<char>)>)
    ensures
        r is None <==> number_parts(v@) is None,
        r matches Some((d, f, negative, e)) ==> number_parts(v@) == Some(
            (d@, f as nat, negative, e@),
        ) && all_digits(d@) && all_digits(e@),
{
    let n = v.len();
    let start: usize = if n > 0 && v[0] == '+' {
        1
    } else {
        0
    };
    let ghost b = v@.skip(start as int);
    proof {
        if start == 1 {
            assert(b =~= v@.drop_first());
        } else {
            assert(b =~= v@);
        }
        assert(b == unsigned_text(v@));
    }
    let (p, q, t) = layout(v, start);
    if p - start + (t - q) == 0 {
        return None;
    }
    let d = digits_between(v, start, p, q, t);
    proof {
        assert(b.take(p - start) =~= v@.subrange(start as int, p as int));
        assert(b.subrange(q - start, t - start) =~= v@.subrange(q as int, t as int));
    }
    let f = t - q;
    if t == n {
        let e: Vec<char> = Vec::new();
        assert(e@ =~= Seq::<char>::empty());
        return Some((d, f, false, e));
    }
    assert(b[t - start] == v@[t as int]);
    if v[t] != 'e' && v[t] != 'E' {
        return None;
    }
    assert(b.skip(t - start + 1) =~= v@.skip(t + 1));
    match exponent_at(v, t + 1) {
        Some((negative, e)) => Some((d, f, negative, e)),
        None => None,
    }
}

/// Reads a rating from a number text, as `number_parts` describes it: `7.4`,
/// `7.`, `.5`, `+7` and `1e1` are numbers; any other text gives `None`, as
/// does a number that a `Rating` cannot hold.
pub fn parse_rating(s: &str) -> (r: Option<Rating>)
    ensures
        r == rating_of(s@),
{
    let v = chars_of(s);
    let (d, f, negative, e) = match parts_of(&v) {
        Some(parts) => parts,
        None => {
            return None;
        },
    };
    let m = match digits_to_u64(&d) {
        Some(m) => m,
        None => {
            return None;
        },
    };
    let x = match digits_to_u64(&e) {
        Some(x) => x,
        None => {
            return None;
        },
    };
    let scale: i128 = if negative {
        f as i128 + x as i128
    } else {
        f as i128 - x as i128
    };
    if scale < i64::MIN as i128 || scale > i64::MAX as i128 {
        return None;
    }
    Some(Rating { mantissa: m, scale: scale as i64 })
}

} // verus!
