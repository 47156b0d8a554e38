//! Airfoil profiles: the normalized outline of a wing section.
use vstd::prelude::*;
use crate::num::{vec2, Num, Vec2};

verus! {

/// A wing section outline at unit chord, as an ordered sequence of points.
#[derive(Clone, Debug, PartialEq)]
pub struct Airfoil {
    pub points: Vec<Vec2>,
}

impl Airfoil {
    /// Reads a profile: a header line, which is skipped, then one point per
    /// line.
    pub fn parse(text: &[u8]) -> (r: Result<Airfoil, ProfileError>)
        ensures
            match parse_profile(text@) {
                Ok(pts) => r is Ok && point_views(r->Ok_0.points@) == pts,
                Err(e) => r == Err::<Airfoil, ProfileError>(e),
            },
    {
        let n = text.len();
        if n == 0 {
            return Err(ProfileError::MissingHeader);
        }
        let e = scan(text, 0, n, 0, ByteClass::Newline);
        let mut pos = if e < n { e + 1 } else { n };
        let ghost rest = text@.subrange(pos as int, n as int);
        proof {
            let t = text@;
            assert(t.subrange(0, n as int) =~= t);
            if e < n {
                assert(rest =~= t.subrange(e + 1, t.len() as int));
            } else {
                assert(rest =~= Seq::<u8>::empty());
            }
        }
        let mut line: usize = 1;
        let mut points: Vec<Vec2> = Vec::new();
        assert(point_views(points@) =~= Seq::empty());
        assert(seq![] + parse_lines(rest, 1)->Ok_0 =~= parse_lines(rest, 1)->Ok_0);
        while pos < n
            invariant
                n == text@.len(),
                1 <= line <= pos <= n,
                parse_profile(text@) == match parse_lines(rest, 1) {
                    Ok(pts) => Ok(pts),
                    Err(k) => Err(ProfileError::Parse { line: k as usize }),
                },
                parse_lines(rest, 1) == match parse_lines(text@.subrange(pos as int, n as int), line as int) {
                    Ok(pts) => Ok(point_views(points@) + pts),
                    Err(k) => Err(k),
                },
            decreases n - pos,
        {
            let ghost t = text@.subrange(pos as int, n as int);
            let e = scan(text, pos, n, pos, ByteClass::Newline);
            assert(t.subrange(0, e - pos) =~= text@.subrange(pos as int, e as int));
            let next = if e < n { e + 1 } else { n };
            proof {
                if e < n {
                    assert(t.subrange(e - pos + 1, t.len() as int) =~= text@.subrange(next as int, n as int));
                } else {
                    assert(text@.subrange(next as int, n as int) =~= Seq::<u8>::empty());
                }
            }
            match parse_point(text, pos, e) {
                None => {
                    return Err(ProfileError::Parse { line });
                },
                Some(p) => {
                    let ghost before = points@;
                    points.push(p);
                    proof {
                        assert(point_views(points@) =~= point_views(before) + seq![(p.x@, p.y@)]);
                        match parse_lines(text@.subrange(next as int, n as int), line as int + 1) {
                            Ok(pts) => {
                                assert(point_views(before) + (seq![(p.x@, p.y@)] + pts)
                                    =~= point_views(points@) + pts);
                            },
                            Err(k) => {},
                        }
                    }
                },
            }
            pos = next;
            line = line + 1;
        }
        proof {
            assert(text@.subrange(pos as int, n as int) =~= Seq::<u8>::empty());
            assert(point_views(points@) + Seq::empty() =~= point_views(points@));
        }
        Ok(Airfoil { points })
    }
}

/// `10^MAX_DIGITS`.
pub const TEN_POW_DIGITS: i128 = 100_000_000_000_000_000_000;

/// Longest number, in digits, that a profile may hold.
pub const MAX_DIGITS: usize = 20;

/// Largest magnitude of a power-of-ten exponent that a profile may hold.
pub const MAX_EXPONENT: usize = 18;

/// Why a profile could not be read.
#[derive(Clone, Copy, Debug, PartialEq, Eq)]
pub enum ProfileError {
    /// The text has no header line.
    MissingHeader,
    /// The line with this index (the header is line 0) lacks two numbers.
    Parse { line: usize },
}

pub open spec fn is_newline(b: u8) -> bool {
    b == 10
}

/// ASCII white space: tab, line feed, vertical tab, form feed, carriage
/// return and space.
pub open spec fn is_space(b: u8) -> bool {
    (9 <= b && b <= 13) || b == 32
}

pub open spec fn is_non_space(b: u8) -> bool {
    !is_space(b)
}

pub open spec fn is_dot(b: u8) -> bool {
    b == 46
}

/// `e` or `E`.
pub open spec fn is_exponent_mark(b: u8) -> bool {
    b == 101 || b == 69
}

pub open spec fn is_digit(b: u8) -> bool {
    48 <= b && b <= 57
}

/// The kinds of byte that the reader looks for.
#[derive(Clone, Copy, Debug, PartialEq, Eq)]
pub enum ByteClass {
    Newline,
    Space,
    NonSpace,
    Dot,
    Exponent,
}

pub open spec fn class_pred(c: ByteClass) -> spec_fn(u8) -> bool {
    match c {
        ByteClass::Newline => |b: u8| is_newline(b),
        ByteClass::Space => |b: u8| is_space(b),
        ByteClass::NonSpace => |b: u8| is_non_space(b),
        ByteClass::Dot => |b: u8| is_dot(b),
        ByteClass::Exponent => |b: u8| is_exponent_mark(b),
    }
}

fn in_class(b: u8, c: ByteClass) -> (r: bool)
    ensures
        r == class_pred(c)(b),
{
    match c {
        ByteClass::Newline => b == 10,
        ByteClass::Space => (9 <= b && b <= 13) || b == 32,
        ByteClass::NonSpace => !((9 <= b && b <= 13) || b == 32),
        ByteClass::Dot => b == 46,
        ByteClass::Exponent => b == 101 || b == 69,
    }
}

/// The first index in `from..hi` of a byte of class `c`, or `hi`.
fn scan(s: &[u8], lo: usize, hi: usize, from: usize, c: ByteClass) -> (j: usize)
    requires
        lo <= from <= hi <= s@.len(),
    ensures
        from <= j <= hi,
        j - lo == first_at(s@.subrange(lo as int, hi as int), from - lo, class_pred(c)),
{
    let ghost t = s@.subrange(lo as int, hi as int);
    let mut j = from;
    while j < hi && !in_class(s[j], c)
        invariant
            lo <= from <= j <= hi <= s@.len(),
            t == s@.subrange(lo as int, hi as int),
            forall|k: int| from - lo <= k < j - lo ==> !class_pred(c)(#[trigger] t[k]),
        decreases hi - j,
    {
        j = j + 1;
    }
    proof {
        lemma_first_at(t, from - lo, j - lo, class_pred(c));
    }
    j
}

/// `j` is the first index from `i` on whose byte satisfies `p`.
pub open spec fn is_first(t: Seq<u8>, i: int, j: int, p: spec_fn(u8) -> bool) -> bool {
    &&& i <= j < t.len()
    &&& p(t[j])
    &&& forall|k: int| i <= k < j ==> !p(#[trigger] t[k])
}

/// The first index from `i` on whose byte satisfies `p`, or the length of
/// `t` if there is none.
pub open spec fn first_at(t: Seq<u8>, i: int, p: spec_fn(u8) -> bool) -> int {
    if exists|j: int| is_first(t, i, j, p) {
        choose|j: int| is_first(t, i, j, p)
    } else {
        t.len() as int
    }
}

pub open spec fn pow10(n: nat) -> int
    decreases n,
{
    if n == 0 {
        1
    } else {
        10 * pow10((n - 1) as nat)
    }
}

pub open spec fn all_digits(t: Seq<u8>) -> bool {
    forall|k: int| 0 <= k < t.len() ==> is_digit(#[trigger] t[k])
}

/// The decimal value of a run of digits.
pub open spec fn digits_value(t: Seq<u8>) -> int
    decreases t.len(),
{
    if t.len() == 0 {
        0
    } else {
        digits_value(t.drop_last()) * 10 + (t.last() - 48)
    }
}

/// Length of a leading `+` or `-`.
pub open spec fn sign_len(t: Seq<u8>) -> int {
    if t.len() > 0 && (t[0] == 45 || t[0] == 43) {
        1
    } else {
        0
    }
}

/// The value of the part of a number before its exponent: an optional sign,
/// digits, and optionally a point followed by digits, with at least one and
/// at most `MAX_DIGITS`
/// digits in all.
pub open spec fn mantissa(t: Seq<u8>) -> Option<(int, int)> {
    let b = sign_len(t);
    let p = first_at(t, b, class_pred(ByteClass::Dot));
    let whole = t.subrange(b, p);
    let frac = if p < t.len() {
        t.subrange(p + 1, t.len() as int)
    } else {
        Seq::empty()
    };
    if all_digits(whole) && all_digits(frac) && 0 < whole.len() + frac.len() <= MAX_DIGITS {
        let mag = digits_value(whole) * pow10(frac.len()) + digits_value(frac);
        Some((if b == 1 && t[0] == 45 { -mag } else { mag }, pow10(frac.len())))
    } else {
        None
    }
}

/// A power-of-ten exponent: an optional sign, then one or two digits, at
/// most `MAX_EXPONENT` in magnitude.
pub open spec fn exponent(t: Seq<u8>) -> Option<int> {
    let b = sign_len(t);
    let d = t.subrange(b, t.len() as int);
    if all_digits(d) && 0 < d.len() <= 2 && digits_value(d) <= MAX_EXPONENT {
        Some(if b == 1 && t[0] == 45 { -digits_value(d) } else { digits_value(d) })
    } else {
        None
    }
}

/// `v * 10^e`.
pub open spec fn q_pow10(v: (int, int), e: int) -> (int, int) {
    if e >= 0 {
        (v.0 * pow10(e as nat), v.1)
    } else {
        (v.0, v.1 * pow10((-e) as nat))
    }
}

/// The value of a decimal number: a mantissa, optionally followed by `e` or
/// `E` and an exponent.
pub open spec fn decimal(t: Seq<u8>) -> Option<(int, int)> {
    let q = first_at(t, 0, class_pred(ByteClass::Exponent));
    let m = mantissa(t.subrange(0, q));
    if q == t.len() {
        m
    } else {
        match (m, exponent(t.subrange(q + 1, t.len() as int))) {
            (Some(v), Some(e)) => Some(q_pow10(v, e)),
            _ => None,
        }
    }
}

/// The first two numbers of a line, separated by white space, as `(x, y)`.
#[verifier::opaque]
pub open spec fn point_of_line(l: Seq<u8>) -> Option<((int, int), (int, int))> {
    let a = first_at(l, 0, class_pred(ByteClass::NonSpace));
    let b = first_at(l, a, class_pred(ByteClass::Space));
    let c = first_at(l, b, class_pred(ByteClass::NonSpace));
    let d = first_at(l, c, class_pred(ByteClass::Space));
    if a < l.len() && c < l.len() {
        match (decimal(l.subrange(a, b)), decimal(l.subrange(c, d))) {
            (Some(x), Some(y)) => Some((x, y)),
            _ => None,
        }
    } else {
        None
    }
}

/// The points of the lines of `t`, the first of which has index `line`; or
/// the index of the first line that does not hold a point. A final line
/// feed ends the last line and starts no new one.
pub open spec fn parse_lines(t: Seq<u8>, line: int) -> Result<Seq<((int, int), (int, int))>, int>
    decreases t.len(),
{
    if t.len() == 0 {
        Ok(Seq::empty())
    } else {
        let e = first_at(t, 0, class_pred(ByteClass::Newline));
        let rest = if e < t.len() {
            t.subrange(e + 1, t.len() as int)
        } else {
            Seq::empty()
        };
        match point_of_line(t.subrange(0, e)) {
            None => Err(line),
            Some(pt) => match parse_lines(rest, line + 1) {
                Ok(pts) => Ok(seq![pt] + pts),
                Err(k) => Err(k),
            },
        }
    }
}

/// A profile: a header line, then one point per line.
pub open spec fn parse_profile(t: Seq<u8>) -> Result<Seq<((int, int), (int, int))>, ProfileError> {
    if t.len() == 0 {
        Err(ProfileError::MissingHeader)
    } else {
        let e = first_at(t, 0, class_pred(ByteClass::Newline));
        let rest = if e < t.len() {
            t.subrange(e + 1, t.len() as int)
        } else {
            Seq::empty()
        };
        match parse_lines(rest, 1) {
            Ok(pts) => Ok(pts),
            Err(k) => Err(ProfileError::Parse { line: k as usize }),
        }
    }
}

/// The points as rational pairs.
pub open spec fn point_views(v: Seq<Vec2>) -> Seq<((int, int), (int, int))> {
    v.map_values(|p: Vec2| (p.x@, p.y@))
}

/// Appending a digit to a run of digits.
pub proof fn lemma_digits_push(t: Seq<u8>, k: int)
    requires
        0 <= k < t.len(),
    ensures
        digits_value(t.subrange(0, k + 1)) == digits_value(t.subrange(0, k)) * 10 + (t[k] - 48),
{
    assert(t.subrange(0, k + 1).drop_last() =~= t.subrange(0, k));
}

pub proof fn lemma_pow10_pos(n: nat)
    ensures
        pow10(n) >= 1,
    decreases n,
{
    if n > 0 {
        lemma_pow10_pos((n - 1) as nat);
    }
}

pub proof fn lemma_pow10_mono(m: nat, n: nat)
    requires
        m <= n,
    ensures
        pow10(m) <= pow10(n),
    decreases n,
{
    if m < n {
        lemma_pow10_mono(m, (n - 1) as nat);
        lemma_pow10_pos((n - 1) as nat);
    }
}

/// The mantissa in `s[lo..hi]`.
fn parse_mantissa(s: &[u8], lo: usize, hi: usize) -> (r: Option<Num>)
    requires
        lo <= hi <= s@.len(),
    ensures
        match mantissa(s@.subrange(lo as int, hi as int)) {
            Some(v) => r is Some && r->0@ == v && r->0.wf(),
            None => r is None,
        },
        r is Some ==> -TEN_POW_DIGITS < r->0.num < TEN_POW_DIGITS && r->0.den <= TEN_POW_DIGITS,
{
    let ghost t = s@.subrange(lo as int, hi as int);
    let mut start = lo;
    let mut negative = false;
    if lo < hi && (s[lo] == 45 || s[lo] == 43) {
        negative = s[lo] == 45;
        start = lo + 1;
    }
    assert(start - lo == sign_len(t));
    let p = scan(s, lo, hi, start, ByteClass::Dot);
    let ghost whole = t.subrange(start - lo, p - lo);
    let frac_start = if p < hi { p + 1 } else { hi };
    let ghost frac = if p < hi { t.subrange(p - lo + 1, t.len() as int) } else { Seq::<u8>::empty() };
    assert(frac =~= s@.subrange(frac_start as int, hi as int));
    assert(whole =~= s@.subrange(start as int, p as int));
    let n_whole = p - start;
    let n_frac = hi - frac_start;
    if n_whole + n_frac == 0 || n_whole + n_frac > MAX_DIGITS {
        return None;
    }
    proof {
        lemma_pow10_mono((n_whole + n_frac) as nat, MAX_DIGITS as nat);
        reveal_with_fuel(pow10, 21);
        assert(pow10(MAX_DIGITS as nat) == TEN_POW_DIGITS);
    }
    let mut mag: i128 = 0;
    let mut k = start;
    while k < p
        invariant
            start <= k <= p <= hi <= s@.len(),
            t == s@.subrange(lo as int, hi as int),
            lo <= start,
            start - lo == sign_len(t),
            p - lo == first_at(t, start - lo, class_pred(ByteClass::Dot)),
            whole == t.subrange(start - lo, p - lo),
            frac == (if p < hi { t.subrange(p - lo + 1, t.len() as int) } else { Seq::<u8>::empty() }),
            frac_start == (if p < hi { p + 1 } else { hi as int }),
            negative == (sign_len(t) == 1 && t[0] == 45),
            n_whole == p - start,
            n_whole + n_frac <= MAX_DIGITS,
            pow10((n_whole + n_frac) as nat) <= TEN_POW_DIGITS,
            whole =~= s@.subrange(start as int, p as int),
            all_digits(s@.subrange(start as int, k as int)),
            mag == digits_value(s@.subrange(start as int, k as int)),
            0 <= mag < pow10((k - start) as nat),
        decreases p - k,
    {
        if !(48 <= s[k] && s[k] <= 57) {
            proof {
                assert(!is_digit(whole[k - start]));
                assert(!all_digits(whole));
            }
            return None;
        }
        proof {
            lemma_digits_push(s@.subrange(start as int, p as int), k - start);
            assert(s@.subrange(start as int, p as int).subrange(0, k - start + 1) =~= s@.subrange(start as int, k + 1));
            assert(s@.subrange(start as int, p as int).subrange(0, k - start) =~= s@.subrange(start as int, k as int));
            lemma_pow10_mono((k + 1 - start) as nat, (n_whole + n_frac) as nat);
        }
        mag = mag * 10 + (s[k] - 48) as i128;
        k = k + 1;
    }
    assert(s@.subrange(start as int, k as int) =~= whole);
    let ghost whole_value = mag as int;
    let mut den: i128 = 1;
    let mut k = frac_start;
    while k < hi
        invariant
            frac_start <= k <= hi <= s@.len(),
            start <= p,
            t == s@.subrange(lo as int, hi as int),
            lo <= start,
            start - lo == sign_len(t),
            p - lo == first_at(t, start - lo, class_pred(ByteClass::Dot)),
            whole == t.subrange(start - lo, p - lo),
            frac == (if p < hi { t.subrange(p - lo + 1, t.len() as int) } else { Seq::<u8>::empty() }),
            frac_start == (if p < hi { p + 1 } else { hi as int }),
            negative == (sign_len(t) == 1 && t[0] == 45),
            n_frac == hi - frac_start,
            n_whole + n_frac <= MAX_DIGITS,
            pow10((n_whole + n_frac) as nat) <= TEN_POW_DIGITS,
            frac =~= s@.subrange(frac_start as int, hi as int),
            all_digits(s@.subrange(frac_start as int, k as int)),
            whole_value == digits_value(whole),
            0 <= whole_value < pow10(n_whole as nat),
            den == pow10((k - frac_start) as nat),
            mag == whole_value * den + digits_value(s@.subrange(frac_start as int, k as int)),
            0 <= mag < pow10((n_whole + k - frac_start) as nat),
        decreases hi - k,
    {
        if !(48 <= s[k] && s[k] <= 57) {
            proof {
                assert(!is_digit(frac[k - frac_start]));
                assert(!all_digits(frac));
            }
            return None;
        }
        proof {
            lemma_digits_push(s@.subrange(frac_start as int, hi as int), k - frac_start);
            assert(s@.subrange(frac_start as int, hi as int).subrange(0, k - frac_start + 1) =~= s@.subrange(frac_start as int, k + 1));
            assert(s@.subrange(frac_start as int, hi as int).subrange(0, k - frac_start) =~= s@.subrange(frac_start as int, k as int));
            lemma_pow10_mono((n_whole + k + 1 - frac_start) as nat, (n_whole + n_frac) as nat);
            lemma_pow10_mono((k - frac_start) as nat, (n_whole + k - frac_start) as nat);
            lemma_pow10_mono((k + 1 - frac_start) as nat, (n_whole + k + 1 - frac_start) as nat);
            assert(pow10((k + 1 - frac_start) as nat) == 10 * pow10((k - frac_start) as nat));
            assert(n_whole + k + 1 - frac_start <= n_whole + n_frac);
            lemma_pow10_pos((k - frac_start) as nat);
            assert(den * 10 <= pow10((n_whole + n_frac) as nat));
            let d = s[k as int] - 48;
            let f = digits_value(s@.subrange(frac_start as int, k as int));
            assert((whole_value * den + f) * 10 + d == whole_value * (10 * den) + (f * 10 + d))
                by (nonlinear_arith);
        }
        mag = mag * 10 + (s[k] - 48) as i128;
        den = den * 10;
        k = k + 1;
    }
    assert(s@.subrange(frac_start as int, k as int) =~= frac);
    let value = if negative { -mag } else { mag };
    proof {
        lemma_pow10_pos(n_frac as nat);
        lemma_pow10_mono(n_frac as nat, (n_whole + n_frac) as nat);
    }
    Some(Num { num: value, den })
}

/// The exponent in `s[lo..hi]`.
fn parse_exponent(s: &[u8], lo: usize, hi: usize) -> (r: Option<i64>)
    requires
        lo <= hi <= s@.len(),
    ensures
        match exponent(s@.subrange(lo as int, hi as int)) {
            Some(e) => r is Some && r->0 as int == e,
            None => r is None,
        },
        r is Some ==> -(MAX_EXPONENT as i64) <= r->0 <= MAX_EXPONENT as i64,
{
    let ghost t = s@.subrange(lo as int, hi as int);
    let mut start = lo;
    let mut negative = false;
    if lo < hi && (s[lo] == 45 || s[lo] == 43) {
        negative = s[lo] == 45;
        start = lo + 1;
    }
    assert(start - lo == sign_len(t));
    let ghost d = t.subrange(start - lo, t.len() as int);
    assert(d =~= s@.subrange(start as int, hi as int));
    if start == hi || hi - start > 2 {
        return None;
    }
    let mut v: i64 = 0;
    let mut k = start;
    while k < hi
        invariant
            lo <= start <= k <= hi <= s@.len(),
            hi - start <= 2,
            t == s@.subrange(lo as int, hi as int),
            start - lo == sign_len(t),
            d == t.subrange(start - lo, t.len() as int),
            negative == (sign_len(t) == 1 && t[0] == 45),
            d =~= s@.subrange(start as int, hi as int),
            all_digits(s@.subrange(start as int, k as int)),
            v == digits_value(s@.subrange(start as int, k as int)),
            0 <= v < pow10((k - start) as nat),
        decreases hi - k,
    {
        if !(48 <= s[k] && s[k] <= 57) {
            proof {
                assert(!is_digit(d[k - start]));
            }
            return None;
        }
        proof {
            lemma_digits_push(s@.subrange(start as int, hi as int), k - start);
            assert(s@.subrange(start as int, hi as int).subrange(0, k - start + 1) =~= s@.subrange(start as int, k + 1));
            assert(s@.subrange(start as int, hi as int).subrange(0, k - start) =~= s@.subrange(start as int, k as int));
            reveal_with_fuel(pow10, 3);
        }
        v = v * 10 + (s[k] - 48) as i64;
        k = k + 1;
    }
    assert(s@.subrange(start as int, k as int) =~= d);
    if v > MAX_EXPONENT as i64 {
        return None;
    }
    Some(if negative { -v } else { v })
}

/// `10^n`.
fn ten_to(n: u32) -> (r: i128)
    requires
        n <= MAX_EXPONENT,
    ensures
        r == pow10(n as nat),
        1 <= r <= 1_000_000_000_000_000_000,
{
    let mut r: i128 = 1;
    let mut k: u32 = 0;
    proof {
        lemma_pow10_mono(0, n as nat);
        lemma_pow10_mono(n as nat, MAX_EXPONENT as nat);
        reveal_with_fuel(pow10, 19);
        assert(pow10(MAX_EXPONENT as nat) == 1_000_000_000_000_000_000);
    }
    while k < n
        invariant
            k <= n <= MAX_EXPONENT,
            r == pow10(k as nat),
            1 <= r <= pow10(k as nat),
            pow10(k as nat) <= pow10(n as nat),
            pow10(n as nat) <= 1_000_000_000_000_000_000,
        decreases n - k,
    {
        proof {
            lemma_pow10_mono((k + 1) as nat, n as nat);
        }
        r = r * 10;
        k = k + 1;
    }
    r
}

/// The decimal number in `s[lo..hi]`.
fn parse_decimal(s: &[u8], lo: usize, hi: usize) -> (r: Option<Num>)
    requires
        lo <= hi <= s@.len(),
    ensures
        match decimal(s@.subrange(lo as int, hi as int)) {
            Some(v) => r is Some && r->0@ == v && r->0.wf(),
            None => r is None,
        },
{
    let ghost t = s@.subrange(lo as int, hi as int);
    let q = scan(s, lo, hi, lo, ByteClass::Exponent);
    assert(t.subrange(0, q - lo) =~= s@.subrange(lo as int, q as int));
    let m = match parse_mantissa(s, lo, q) {
        Some(m) => m,
        None => return None,
    };
    if q == hi {
        return Some(m);
    }
    assert(t.subrange(q - lo + 1, t.len() as int) =~= s@.subrange(q + 1, hi as int));
    let e = match parse_exponent(s, q + 1, hi) {
        Some(e) => e,
        None => return None,
    };
    assert(mantissa(t.subrange(0, q - lo)) == Some(m@));
    assert(exponent(t.subrange(q - lo + 1, t.len() as int)) == Some(e as int));
    assert(decimal(t) == Some(q_pow10(m@, e as int)));
    proof {
        lemma_pow10_mono(0, MAX_EXPONENT as nat);
        reveal_with_fuel(pow10, 19);
        assert(pow10(MAX_EXPONENT as nat) == 1_000_000_000_000_000_000);
        lemma_pow10_mono(MAX_DIGITS as nat, MAX_DIGITS as nat);
    }
    if e >= 0 {
        let p = ten_to(e as u32);
        proof {
            crate::num::lemma_mul_bound(m.num as int, p as int, TEN_POW_DIGITS as int, 1_000_000_000_000_000_000);
        }
        assert(q_pow10(m@, e as int) == (m.num * p, m.den as int));
        Some(Num { num: m.num * p, den: m.den })
    } else {
        let p = ten_to((-e) as u32);
        proof {
            crate::num::lemma_mul_bound(m.den as int, p as int, TEN_POW_DIGITS as int, 1_000_000_000_000_000_000);
            crate::num::lemma_pos_product(m.den as int, p as int);
        }
        assert(q_pow10(m@, e as int) == (m.num as int, m.den * p));
        Some(Num { num: m.num, den: m.den * p })
    }
}

/// The point on the line `s[lo..hi]`.
fn parse_point(s: &[u8], lo: usize, hi: usize) -> (r: Option<Vec2>)
    requires
        lo <= hi <= s@.len(),
    ensures
        match point_of_line(s@.subrange(lo as int, hi as int)) {
            Some(pt) => r is Some && r->0.x@ == pt.0 && r->0.y@ == pt.1,
            None => r is None,
        },
{
    reveal(point_of_line);
    let ghost l = s@.subrange(lo as int, hi as int);
    let a = scan(s, lo, hi, lo, ByteClass::NonSpace);
    let b = scan(s, lo, hi, a, ByteClass::Space);
    let c = scan(s, lo, hi, b, ByteClass::NonSpace);
    let d = scan(s, lo, hi, c, ByteClass::Space);
    if a == hi || c == hi {
        return None;
    }
    assert(l.subrange(a - lo, b - lo) =~= s@.subrange(a as int, b as int));
    assert(l.subrange(c - lo, d - lo) =~= s@.subrange(c as int, d as int));
    let x = parse_decimal(s, a, b);
    let y = parse_decimal(s, c, d);
    match (x, y) {
        (Some(x), Some(y)) => Some(vec2(x, y)),
        _ => None,
    }
}

/// Where a scan that stopped at `j` stands: nothing before it satisfies `p`,
/// and it is at the end or at a byte that does.
pub proof fn lemma_first_at(t: Seq<u8>, i: int, j: int, p: spec_fn(u8) -> bool)
    requires
        0 <= i <= j <= t.len(),
        j == t.len() || p(t[j]),
        forall|k: int| i <= k < j ==> !p(#[trigger] t[k]),
    ensures
        first_at(t, i, p) == j,
{
    if j < t.len() {
        assert(is_first(t, i, j, p));
        let c = choose|c: int| is_first(t, i, c, p);
        assert(c == j) by {
            if c < j {
                assert(!p(t[c]));
            } else if c > j {
                assert(!p(t[j]));
            }
        }
    } else {
        assert forall|c: int| !is_first(t, i, c, p) by {
            if i <= c < t.len() && p(t[c]) {
                assert(!p(t[c]));
            }
        }
    }
}

} // verus!
