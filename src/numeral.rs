//! Chapter and volume numbers: decimal literals and Chinese numerals.
use crate::text::string_of;
use chinese_number::{ChineseCountMethod, ChineseToNumber};
use vstd::prelude::*;

verus! {

/// A non-negative decimal number `mantissa / 10^scale`, kept in lowest terms:
/// when `scale > 0` the mantissa does not end in a zero digit, so two numbers
/// of the same magnitude are equal as values of this type.
#[derive(Clone, Copy, Debug, PartialEq, Eq, Structural)]
pub struct Decimal {
    pub mantissa: u64,
    pub scale: u32,
}

impl Decimal {
    pub open spec fn wf(self) -> bool {
        self.scale == 0 || self.mantissa % 10 != 0
    }

    /// A whole number.
    pub fn whole(n: u64) -> (r: Decimal)
        ensures
            r == (Decimal { mantissa: n, scale: 0 }),
            r.wf(),
    {
        Decimal { mantissa: n, scale: 0 }
    }
}

pub open spec fn is_digit(c: char) -> bool {
    '0' <= c && c <= '9'
}

pub open spec fn digit_value(c: char) -> nat {
    (c as u32 - '0' as u32) as nat
}

/// The value of a string of decimal digits, most significant first.
pub open spec fn digits_value(d: Seq<char>) -> nat
    decreases d.len(),
{
    if d.len() == 0 {
        0
    } else {
        digits_value(d.drop_last()) * 10 + digit_value(d.last())
    }
}

pub open spec fn all_digits(d: Seq<char>) -> bool {
    forall|i: int| 0 <= i < d.len() ==> is_digit(#[trigger] d[i])
}

/// `d` without its trailing zero digits.
pub open spec fn strip_zeros(d: Seq<char>) -> Seq<char>
    decreases d.len(),
{
    if d.len() > 0 && d.last() == '0' {
        strip_zeros(d.drop_last())
    } else {
        d
    }
}

/// The number that `w` digits, a dot and `f` digits write, when it fits.
pub open spec fn decimal_parts(w: Seq<char>, f: Seq<char>) -> Option<Decimal> {
    let g = strip_zeros(f);
    let v = digits_value(w + g);
    if v <= u64::MAX && g.len() <= u32::MAX {
        Some(Decimal { mantissa: v as u64, scale: g.len() as u32 })
    } else {
        None
    }
}

/// Index of the first character of `t` that is not a digit.
pub open spec fn digits_prefix(t: Seq<char>) -> nat
    decreases t.len(),
{
    if t.len() > 0 && is_digit(t[0]) {
        1 + digits_prefix(t.drop_first())
    } else {
        0
    }
}

/// A decimal literal: digits, optionally a dot and more digits, with at least
/// one digit in all. `None` for anything else, or a value too large to hold.
pub open spec fn decimal_literal(t: Seq<char>) -> Option<Decimal> {
    let k = digits_prefix(t) as int;
    if k == t.len() {
        if k == 0 {
            None
        } else {
            decimal_parts(t, Seq::empty())
        }
    } else if t[k] == '.' && all_digits(t.skip(k + 1)) && (k > 0 || t.len() > k + 1) {
        decimal_parts(t.take(k), t.skip(k + 1))
    } else {
        None
    }
}

/// What chinese_number reads from `s` as a Chinese numeral, counting by ten
/// thousands.
pub uninterp spec fn chinese_value(s: Seq<char>) -> Option<u64>;

/// Relies on chinese_number's `ChineseToNumber<u64>::to_number` with
/// `ChineseCountMethod::TenThousand`: its result depends on the text alone.
#[verifier::external_body]
fn chinese_to_number(s: &str) -> (r: Option<u64>)
    ensures
        r == chinese_value(s@),
{
    ChineseToNumber::<u64>::to_number(&s, ChineseCountMethod::TenThousand).ok()
}

/// The number a numeral writes: a decimal literal first, else a Chinese numeral.
pub open spec fn numeral_value(t: Seq<char>) -> Option<Decimal> {
    match decimal_literal(t) {
        Some(d) => Some(d),
        None => match chinese_value(t) {
            Some(n) => Some(Decimal { mantissa: n, scale: 0 }),
            None => None,
        },
    }
}

pub fn is_ascii_digit(c: char) -> (r: bool)
    ensures
        r == is_digit(c),
{
    '0' <= c && c <= '9'
}

proof fn lemma_digits_value_prefix(x: Seq<char>, j: int)
    requires
        0 <= j <= x.len(),
    ensures
        digits_value(x.take(j)) <= digits_value(x),
    decreases x.len(),
{
    if j < x.len() {
        assert(x.drop_last().take(j) =~= x.take(j));
        lemma_digits_value_prefix(x.drop_last(), j);
    } else {
        assert(x.take(j) =~= x);
    }
}

/// The value of the digits `d`, or `None` when it exceeds `u64::MAX`.
pub fn digits_to_u64(d: &[char]) -> (r: Option<u64>)
    requires
        all_digits(d@),
    ensures
        r == (if digits_value(d@) <= u64::MAX {
            Some(digits_value(d@) as u64)
        } else {
            None::<u64>
        }),
{
    let mut acc: u64 = 0;
    let mut i: usize = 0;
    assert(d@.take(0) =~= Seq::<char>::empty());
    while i < d.len()
        invariant
            i <= d@.len(),
            all_digits(d@),
            acc as nat == digits_value(d@.take(i as int)),
        decreases d@.len() - i,
    {
        assert(d@.take(i + 1).drop_last() =~= d@.take(i as int));
        assert(is_digit(d@[i as int]));
        let dv = (d[i] as u32 - '0' as u32) as u64;
        if acc > (u64::MAX - dv) / 10 {
            proof {
                lemma_digits_value_prefix(d@, i + 1);
            }
            return None;
        }
        acc = acc * 10 + dv;
        i = i + 1;
    }
    assert(d@.take(i as int) =~= d@);
    Some(acc)
}

proof fn lemma_digits_prefix_step(t: Seq<char>, i: int)
    requires
        0 <= i < t.len(),
        is_digit(t[i]),
    ensures
        digits_prefix(t.skip(i)) == 1 + digits_prefix(t.skip(i + 1)),
{
    assert(t.skip(i).drop_first() =~= t.skip(i + 1));
}

/// `digits_prefix` computed.
fn digits_prefix_len(t: &[char]) -> (r: usize)
    ensures
        r == digits_prefix(t@),
        r <= t@.len(),
        all_digits(t@.take(r as int)),
{
    let mut k: usize = 0;
    assert(t@.skip(0) =~= t@);
    while k < t.len() && is_ascii_digit(t[k])
        invariant
            k <= t@.len(),
            digits_prefix(t@) == k + digits_prefix(t@.skip(k as int)),
            all_digits(t@.take(k as int)),
        decreases t@.len() - k,
    {
        proof {
            lemma_digits_prefix_step(t@, k as int);
        }
        assert(t@.take(k + 1) =~= t@.take(k as int).push(t@[k as int]));
        k = k + 1;
    }
    if k < t.len() {
        assert(t@.skip(k as int)[0] == t@[k as int]);
    }
    assert(digits_prefix(t@.skip(k as int)) == 0);
    k
}

/// Whether `t[b..]` is all digits.
fn all_digits_from(t: &[char], b: usize) -> (r: bool)
    requires
        b <= t@.len(),
    ensures
        r == all_digits(t@.skip(b as int)),
{
    let mut j = b;
    while j < t.len()
        invariant
            b <= j <= t@.len(),
            all_digits(t@.subrange(b as int, j as int)),
        decreases t@.len() - j,
    {
        if !is_ascii_digit(t[j]) {
            assert(t@.skip(b as int)[j - b] == t@[j as int]);
            return false;
        }
        assert(t@.subrange(b as int, j + 1) =~= t@.subrange(b as int, j as int).push(t@[j as int]));
        j = j + 1;
    }
    assert(t@.subrange(b as int, t@.len() as int) =~= t@.skip(b as int));
    true
}

/// The end `g` such that `t[b..g]` is `t[b..e]` without trailing zeros.
fn strip_zeros_end(t: &[char], b: usize, e: usize) -> (g: usize)
    requires
        b <= e <= t@.len(),
    ensures
        b <= g <= e,
        t@.subrange(b as int, g as int) == strip_zeros(t@.subrange(b as int, e as int)),
{
    let ghost f = t@.subrange(b as int, e as int);
    let mut g = e;
    assert(f.take(f.len() as int) =~= f);
    while g > b && t[g - 1] == '0'
        invariant
            b <= g <= e <= t@.len(),
            f == t@.subrange(b as int, e as int),
            strip_zeros(f) == strip_zeros(f.take(g - b)),
        decreases g,
    {
        assert(f.take(g - b).drop_last() =~= f.take(g - 1 - b));
        g = g - 1;
    }
    assert(f.take(g - b) =~= t@.subrange(b as int, g as int));
    g
}

proof fn lemma_strip_zeros_last(f: Seq<char>)
    ensures
        strip_zeros(f).len() > 0 ==> strip_zeros(f).last() != '0',
    decreases f.len(),
{
    if f.len() > 0 && f.last() == '0' {
        lemma_strip_zeros_last(f.drop_last());
    }
}

/// `t[0..k] ++ t[b..g]` as a new vector.
fn join_digits(t: &[char], k: usize, b: usize, g: usize) -> (r: Vec<char>)
    requires
        k <= t@.len(),
        b <= g <= t@.len(),
    ensures
        r@ == t@.take(k as int) + t@.subrange(b as int, g as int),
{
    let mut digits: Vec<char> = Vec::new();
    let mut i: usize = 0;
    while i < k
        invariant
            i <= k <= t@.len(),
            digits@ == t@.take(i as int),
        decreases k - i,
    {
        assert(t@.take(i + 1) =~= t@.take(i as int).push(t@[i as int]));
        digits.push(t[i]);
        i = i + 1;
    }
    let mut i = b;
    while i < g
        invariant
            b <= i <= g <= t@.len(),
            k <= t@.len(),
            digits@ == t@.take(k as int) + t@.subrange(b as int, i as int),
        decreases g - i,
    {
        assert(t@.subrange(b as int, i + 1) =~= t@.subrange(b as int, i as int).push(t@[i as int]));
        digits.push(t[i]);
        i = i + 1;
    }
    digits
}

/// `decimal_parts(w, f)` where `w = t[0..k]` and `f = t[b..e]`, all digits.
fn decimal_parts_of(t: &[char], k: usize, b: usize, e: usize) -> (r: Option<Decimal>)
    requires
        k <= t@.len(),
        b <= e <= t@.len(),
        all_digits(t@.take(k as int)),
        all_digits(t@.subrange(b as int, e as int)),
    ensures
        r == decimal_parts(t@.take(k as int), t@.subrange(b as int, e as int)),
        r matches Some(d) ==> d.wf(),
{
    let g = strip_zeros_end(t, b, e);
    let digits = join_digits(t, k, b, g);
    let ghost w = t@.take(k as int);
    let ghost gs = t@.subrange(b as int, g as int);
    assert(all_digits(digits@)) by {
        assert forall|m: int| 0 <= m < digits@.len() implies is_digit(#[trigger] digits@[m]) by {
            if m < w.len() {
                assert(digits@[m] == w[m]);
            } else {
                assert(digits@[m] == t@.subrange(b as int, e as int)[m - w.len()]);
            }
        }
    }
    let glen = g - b;
    match digits_to_u64(&digits) {
        Some(v) => {
            if glen > u32::MAX as usize {
                return None;
            }
            proof {
                if glen > 0 {
                    let ds = digits@;
                    assert(ds.last() == gs.last());
                    lemma_strip_zeros_last(t@.subrange(b as int, e as int));
                    assert(gs.last() != '0');
                    assert(v == digits_value(ds.drop_last()) * 10 + digit_value(ds.last()));
                    assert(v % 10 == digit_value(ds.last())) by (nonlinear_arith)
                        requires
                            v == digits_value(ds.drop_last()) * 10 + digit_value(ds.last()),
                            digit_value(ds.last()) < 10,
                    ;
                }
            }
            Some(Decimal { mantissa: v, scale: glen as u32 })
        },
        None => None,
    }
}

/// `decimal_literal` computed.
pub fn decimal_literal_of(t: &[char]) -> (r: Option<Decimal>)
    ensures
        r == decimal_literal(t@),
        r matches Some(d) ==> d.wf(),
{
    let k = digits_prefix_len(t);
    if k == t.len() {
        if k == 0 {
            return None;
        }
        assert(t@.take(k as int) =~= t@);
        assert(t@.subrange(k as int, k as int) =~= Seq::<char>::empty());
        assert(all_digits(Seq::<char>::empty()));
        decimal_parts_of(t, k, k, k)
    } else {
        if t[k] != '.' || !all_digits_from(t, k + 1) || (k == 0 && t.len() == k + 1) {
            return None;
        }
        assert(t@.subrange(k + 1, t@.len() as int) =~= t@.skip(k + 1));
        decimal_parts_of(t, k, k + 1, t.len())
    }
}

/// The number a numeral writes, given what chinese_number read from it.
pub fn numeral_from(t: &[char], chinese: Option<u64>) -> (r: Option<Decimal>)
    ensures
        r == (match decimal_literal(t@) {
            Some(d) => Some(d),
            None => match chinese {
                Some(n) => Some(Decimal { mantissa: n, scale: 0 }),
                None => None,
            },
        }),
{
    match decimal_literal_of(t) {
        Some(d) => Some(d),
        None => match chinese {
            Some(n) => Some(Decimal::whole(n)),
            None => None,
        },
    }
}

/// The number a numeral writes: a decimal literal first, else a Chinese
/// numeral read by chinese_number.
pub fn parse_numeral(t: &[char]) -> (r: Option<Decimal>)
    ensures
        r == numeral_value(t@),
{
    match decimal_literal_of(t) {
        Some(d) => Some(d),
        None => {
            let s = string_of(t);
            numeral_from(t, chinese_to_number(s.as_str()))
        },
    }
}

} // verus!
