//! Chapter-title parsing: volume and chapter numbers written in Arabic or
//! Chinese numerals, chapter ranges, and the title that is left once the
//! matched tokens are taken out.
//!
//! A title is read against the pattern
//! `^(第?N[卷部季冊册] ?)?(第?N(-D(.D)?)?[话話回]?)?([ +]|$)`, where `N` is a
//! run of digits and the Chinese numerals up to 千, optionally followed by a
//! dot and digits, and `D` is a run of digits. Digits are the ASCII digits
//! `0` to `9` only: other Unicode decimal digits, such as full-width ones,
//! are not read as digits. Where two readings are possible the longer
//! optional part wins, as in a backtracking matcher.
use crate::numeral::{
    all_digits, chinese_value, decimal_literal, digits_prefix, digits_value, is_ascii_digit,
    is_digit, numeral_value, parse_numeral, strip_zeros, Decimal,
};
use crate::text::{chars_of, remove_all, remove_all_chars, slice_chars, string_of, trim, trim_chars};
use crate::models::opt_view;
use vstd::prelude::*;

verus! {

pub open spec fn is_cjk_numeral(c: char) -> bool {
    c == '零' || c == '一' || c == '二' || c == '三' || c == '四' || c == '五' || c == '六'
        || c == '七' || c == '八' || c == '九' || c == '十' || c == '百' || c == '千'
}

pub open spec fn is_numeral_char(c: char) -> bool {
    is_digit(c) || is_cjk_numeral(c)
}

pub open spec fn is_volume_marker(c: char) -> bool {
    c == '卷' || c == '部' || c == '季' || c == '冊' || c == '册'
}

pub open spec fn is_chapter_marker(c: char) -> bool {
    c == '话' || c == '話' || c == '回'
}

/// End of the longest run from `i` of numeral characters (or of digits only).
pub open spec fn run_end(s: Seq<char>, i: int, digits_only: bool) -> int
    decreases s.len() - i,
{
    if 0 <= i < s.len() && (if digits_only {
        is_digit(s[i])
    } else {
        is_numeral_char(s[i])
    }) {
        run_end(s, i + 1, digits_only)
    } else {
        i
    }
}

/// End of an optional fraction (a dot and at least one digit) at `r`.
pub open spec fn fraction_end(s: Seq<char>, r: int) -> int {
    if 0 <= r && r + 1 < s.len() && s[r] == '.' && is_digit(s[r + 1]) {
        run_end(s, r + 1, true)
    } else {
        r
    }
}

/// End of a numeral `N` starting at `i`, if one starts there.
pub open spec fn numeral_end(s: Seq<char>, i: int) -> Option<int> {
    let r = run_end(s, i, false);
    if r == i {
        None
    } else {
        Some(fraction_end(s, r))
    }
}

/// `i`, past an optional `第`.
pub open spec fn after_ordinal(s: Seq<char>, i: int) -> int {
    if 0 <= i < s.len() && s[i] == '第' {
        i + 1
    } else {
        i
    }
}

/// Whether the pattern may end at `q`: the end, a space or a `+`.
pub open spec fn boundary(s: Seq<char>, q: int) -> bool {
    q == s.len() || (0 <= q < s.len() && (s[q] == ' ' || s[q] == '+'))
}

/// The volume segment at the start: `(numeral start, numeral end, end)`,
/// the end taken before an optional space.
pub open spec fn volume_segment(s: Seq<char>) -> Option<(int, int, int)> {
    let a = after_ordinal(s, 0);
    match numeral_end(s, a) {
        Some(n) => if n < s.len() && is_volume_marker(s[n]) {
            Some((a, n, n + 1))
        } else {
            None
        },
        None => None,
    }
}

/// A chapter segment at `p` that the pattern can end after:
/// `(start, numeral start, numeral end, end, has a range)`.
pub open spec fn chapter_segment(s: Seq<char>, p: int) -> Option<(int, int, int, int, bool)> {
    let a = after_ordinal(s, p);
    match numeral_end(s, a) {
        Some(n) => {
            let m = if n < s.len() && n + 1 < s.len() && s[n] == '-' && is_digit(s[n + 1]) {
                fraction_end(s, run_end(s, n + 1, true))
            } else {
                n
            };
            let q = if m < s.len() && is_chapter_marker(s[m]) {
                m + 1
            } else {
                m
            };
            if boundary(s, q) {
                Some((p, a, n, q, m != n))
            } else {
                None
            }
        },
        None => None,
    }
}

/// How the pattern matches a title without a volume segment.
pub open spec fn match_without_volume(s: Seq<char>) -> Option<
    (Option<(int, int, int)>, Option<(int, int, int, int, bool)>),
> {
    match chapter_segment(s, 0) {
        Some(c) => Some((None, Some(c))),
        None => if boundary(s, 0) {
            Some((None, None))
        } else {
            None
        },
    }
}

/// How the pattern matches `s`, if it does: the volume segment
/// `(numeral start, numeral end, end)` and the chapter segment
/// `(start, numeral start, numeral end, end, has a range)`, each if present.
pub open spec fn title_match(s: Seq<char>) -> Option<
    (Option<(int, int, int)>, Option<(int, int, int, int, bool)>),
> {
    match volume_segment(s) {
        Some((va, vn, ve)) => if ve < s.len() && s[ve] == ' ' {
            match chapter_segment(s, ve + 1) {
                Some(c) => Some((Some((va, vn, ve + 1)), Some(c))),
                None => if boundary(s, ve + 1) {
                    Some((Some((va, vn, ve + 1)), None))
                } else {
                    Some((Some((va, vn, ve)), None))
                },
            }
        } else {
            match chapter_segment(s, ve) {
                Some(c) => Some((Some((va, vn, ve)), Some(c))),
                None => if boundary(s, ve) {
                    Some((Some((va, vn, ve)), None))
                } else {
                    match_without_volume(s)
                },
            }
        },
        None => match_without_volume(s),
    }
}

/// The title left after taking out the matched tokens: the volume token
/// always, the chapter token only when it has no range; trimmed, and absent
/// when nothing is left.
pub open spec fn residual_title(
    s: Seq<char>,
    m: (Option<(int, int, int)>, Option<(int, int, int, int, bool)>),
) -> Option<Seq<char>> {
    let t1 = match m.0 {
        Some((_, _, ve)) => remove_all(s, s.subrange(0, ve)),
        None => s,
    };
    let t2 = match m.1 {
        Some((p, _, _, q, range)) => if range {
            t1
        } else {
            remove_all(t1, s.subrange(p, q))
        },
        None => t1,
    };
    let t3 = trim(t2);
    if t3.len() == 0 {
        None
    } else {
        Some(t3)
    }
}

/// `全一卷` and its kin: a whole series in one volume (`Some(true)`) or in one
/// chapter (`Some(false)`).
pub open spec fn whole_series_idiom(s: Seq<char>) -> Option<bool> {
    if s.len() >= 3 && s[0] == '全' && (s[1] == '一' || s[1] == '1') {
        if s[2] == '卷' || s[2] == '冊' || s[2] == '册' {
            Some(true)
        } else if s[2] == '話' || s[2] == '话' || s[2] == '回' {
            Some(false)
        } else {
            None
        }
    } else {
        None
    }
}

/// `(volume number, chapter number, title)` of a raw chapter title.
pub open spec fn parse_title(s: Seq<char>) -> (Option<Decimal>, Option<Decimal>, Option<Seq<char>>) {
    match whole_series_idiom(s) {
        Some(true) => (Some(Decimal { mantissa: 1, scale: 0 }), None, Some(s)),
        Some(false) => (None, Some(Decimal { mantissa: 1, scale: 0 }), Some(s)),
        None => match title_match(s) {
            None => (None, None, Some(s)),
            Some(m) => (
                match m.0 {
                    Some((a, n, _)) => numeral_value(s.subrange(a, n)),
                    None => None,
                },
                match m.1 {
                    Some((_, a, n, _, _)) => numeral_value(s.subrange(a, n)),
                    None => None,
                },
                residual_title(s, m),
            ),
        },
    }
}

proof fn lemma_remove_self(s: Seq<char>)
    requires
        s.len() > 0,
    ensures
        remove_all(s, s) == Seq::<char>::empty(),
{
    assert(s.take(s.len() as int) =~= s);
    assert(s.skip(s.len() as int) =~= Seq::<char>::empty());
    assert(remove_all(s.skip(s.len() as int), s) == s.skip(s.len() as int));
}

/// A title that the pattern reads as one chapter segment without a range and
/// nothing else, such as `第12話`, gives that segment's number as the chapter,
/// no volume and no title.
pub proof fn lemma_lone_chapter(s: Seq<char>)
    requires
        title_match(s) matches Some((None, Some((b, _, _, q, false)))) && b == 0 && q == s.len(),
    ensures
        title_match(s) matches Some((_, Some((_, a, n, _, _)))) && parse_title(s) == (
            None::<Decimal>,
            numeral_value(s.subrange(a, n)),
            None::<Seq<char>>,
        ),
{
    let (v, c) = title_match(s)->Some_0;
    let (_, a, n, q, _) = c->Some_0;
    assert(s.len() > 0);
    assert(s.subrange(0, s.len() as int) =~= s);
    lemma_remove_self(s);
    assert(trim(Seq::<char>::empty()) == Seq::<char>::empty());
}

/// A title whose chapter segment has a range, such as `第01-02話`, gives the
/// first number of the range as the chapter and keeps the whole title, when
/// it has no volume segment and no surrounding whitespace.
pub proof fn lemma_range_keeps_title(s: Seq<char>)
    requires
        title_match(s) matches Some((None, Some((_, _, _, _, true)))),
        trim(s) == s,
    ensures
        title_match(s) matches Some((_, Some((_, a, n, _, _)))) && parse_title(s) == (
            None::<Decimal>,
            numeral_value(s.subrange(a, n)),
            Some(s),
        ),
{
    let (v, c) = title_match(s)->Some_0;
    let (_, a, n, q, _) = c->Some_0;
    assert(s.len() > 0);
}

proof fn lemma_run_end(s: Seq<char>, i: int, j: int, digits_only: bool)
    requires
        0 <= i <= j <= s.len(),
        forall|k: int|
            i <= k < j ==> (if digits_only {
                is_digit(#[trigger] s[k])
            } else {
                is_numeral_char(s[k])
            }),
        j < s.len() ==> !is_digit(s[j]) && !is_cjk_numeral(s[j]),
    ensures
        run_end(s, i, digits_only) == j,
    decreases j - i,
{
    if i < j {
        lemma_run_end(s, i + 1, j, digits_only);
    }
}

proof fn lemma_all_digits_prefix(d: Seq<char>)
    requires
        all_digits(d),
    ensures
        digits_prefix(d) == d.len(),
    decreases d.len(),
{
    if d.len() > 0 {
        assert(all_digits(d.drop_first())) by {
            assert forall|i: int| 0 <= i < d.drop_first().len() implies is_digit(
                #[trigger] d.drop_first()[i],
            ) by {
                assert(d.drop_first()[i] == d[i + 1]);
            }
        }
        lemma_all_digits_prefix(d.drop_first());
    }
}

/// A numeral written in Chinese numerals only.
pub open spec fn cjk_text(n: Seq<char>) -> bool {
    n.len() > 0 && forall|i: int| 0 <= i < n.len() ==> is_cjk_numeral(#[trigger] n[i])
}

/// A numeral written in digits: digits, optionally a dot and more digits.
pub open spec fn decimal_text(n: Seq<char>) -> bool {
    let k = digits_prefix(n) as int;
    k > 0 && (k == n.len() || (n[k] == '.' && k + 1 < n.len() && all_digits(n.skip(k + 1))))
}

/// Nothing, or the ordinal prefix `第`.
pub open spec fn is_ordinal_prefix(p: Seq<char>) -> bool {
    p == Seq::<char>::empty() || p == seq!['第']
}

/// Nothing, or one chapter marker: `話`, `话` or `回`.
pub open spec fn is_chapter_suffix(m: Seq<char>) -> bool {
    m.len() == 0 || (m.len() == 1 && is_chapter_marker(m[0]))
}

proof fn lemma_digits_prefix_props(t: Seq<char>)
    ensures
        digits_prefix(t) <= t.len(),
        forall|i: int| 0 <= i < digits_prefix(t) ==> is_digit(#[trigger] t[i]),
        digits_prefix(t) < t.len() ==> !is_digit(t[digits_prefix(t) as int]),
    decreases t.len(),
{
    if t.len() > 0 && is_digit(t[0]) {
        lemma_digits_prefix_props(t.drop_first());
        assert forall|i: int| 0 <= i < digits_prefix(t) implies is_digit(#[trigger] t[i]) by {
            if i > 0 {
                assert(t[i] == t.drop_first()[i - 1]);
            }
        }
        if digits_prefix(t) < t.len() {
            assert(t[digits_prefix(t) as int] == t.drop_first()[digits_prefix(t) - 1]);
        }
    }
}

/// A numeral text at `s[a..e]`, followed by neither a numeral character nor
/// a dot, is read as ending at `e`.
proof fn lemma_numeral_at(s: Seq<char>, a: int, e: int)
    requires
        0 <= a < e <= s.len(),
        cjk_text(s.subrange(a, e)) || decimal_text(s.subrange(a, e)),
        e < s.len() ==> !is_digit(s[e]) && !is_cjk_numeral(s[e]) && s[e] != '.',
    ensures
        numeral_end(s, a) == Some(e),
        is_digit(s[a]) || is_cjk_numeral(s[a]),
{
    let n = s.subrange(a, e);
    if cjk_text(n) {
        assert forall|k: int| a <= k < e implies is_numeral_char(#[trigger] s[k]) by {
            assert(s[k] == n[k - a]);
        }
        assert(is_cjk_numeral(n[0]));
        lemma_run_end(s, a, e, false);
    } else {
        lemma_digits_prefix_props(n);
        let k = digits_prefix(n) as int;
        assert(is_digit(n[0]));
        if k == n.len() {
            assert forall|j: int| a <= j < e implies is_numeral_char(#[trigger] s[j]) by {
                assert(s[j] == n[j - a]);
                assert(is_digit(n[j - a]));
            }
            lemma_run_end(s, a, e, false);
        } else {
            assert(s[a + k] == n[k]);
            assert forall|j: int| a <= j < a + k implies is_numeral_char(#[trigger] s[j]) by {
                assert(s[j] == n[j - a]);
                assert(is_digit(n[j - a]));
            }
            lemma_run_end(s, a, a + k, false);
            assert forall|j: int| a + k + 1 <= j < e implies is_digit(#[trigger] s[j]) by {
                assert(s[j] == n.skip(k + 1)[j - a - k - 1]);
            }
            assert(is_digit(s[a + k + 1]));
            lemma_run_end(s, a + k + 1, e, true);
        }
    }
}

/// A title that is one chapter segment and nothing else, such as `第12話`,
/// `12話` or `第十二`, gives that numeral's number as the chapter, no volume
/// and no title.
pub proof fn lemma_lone_chapter_text(p: Seq<char>, n: Seq<char>, m: Seq<char>)
    requires
        is_ordinal_prefix(p),
        cjk_text(n) || decimal_text(n),
        is_chapter_suffix(m),
    ensures
        parse_title(p + n + m) == (None::<Decimal>, numeral_value(n), None::<Seq<char>>),
{
    let s = p + n + m;
    let a = p.len() as int;
    let e = a + n.len();
    assert(n.len() > 0) by {
        if !cjk_text(n) {
            assert(digits_prefix(n) > 0);
            lemma_digits_prefix_props(n);
        }
    }
    assert(s.subrange(a, e) =~= n);
    if e < s.len() {
        assert(s[e] == m[0]);
    }
    lemma_numeral_at(s, a, e);
    if p.len() == 1 {
        assert(s[0] == '第');
    }
    assert(after_ordinal(s, 0) == a);
    assert(volume_segment(s) is None);
    assert(chapter_segment(s, 0) == Some((0int, a, e, s.len() as int, false)));
    assert(whole_series_idiom(s) is None);
    lemma_lone_chapter(s);
}

/// A trimmed title whose chapter segment has a range, such as `第01-02話` or
/// `03-05話 番外`, gives the first number of the range as the chapter, no
/// volume, and keeps the whole title.
pub proof fn lemma_range_text(p: Seq<char>, n: Seq<char>, b: Seq<char>, m: Seq<char>, tail: Seq<char>)
    requires
        is_ordinal_prefix(p),
        cjk_text(n) || decimal_text(n),
        b.len() > 0,
        all_digits(b),
        is_chapter_suffix(m),
        tail.len() == 0 || tail[0] == ' ',
        trim(p + n + seq!['-'] + b + m + tail) == p + n + seq!['-'] + b + m + tail,
    ensures
        parse_title(p + n + seq!['-'] + b + m + tail) == (
            None::<Decimal>,
            numeral_value(n),
            Some(p + n + seq!['-'] + b + m + tail),
        ),
{
    let s = p + n + seq!['-'] + b + m + tail;
    let a = p.len() as int;
    let e = a + n.len();
    let f = e + 1 + b.len();
    assert(n.len() > 0) by {
        if !cjk_text(n) {
            lemma_digits_prefix_props(n);
        }
    }
    assert(s.subrange(a, e) =~= n);
    assert(s[e] == '-');
    lemma_numeral_at(s, a, e);
    assert forall|j: int| e + 1 <= j < f implies is_digit(#[trigger] s[j]) by {
        assert(s[j] == b[j - e - 1]);
    }
    let q = if m.len() == 1 { f + 1 } else { f };
    if f < s.len() {
        if m.len() == 1 {
            assert(s[f] == m[0]);
        } else {
            assert(s[f] == tail[0]);
        }
    }
    if q < s.len() {
        assert(s[q] == tail[0]);
    }
    assert(is_digit(s[e + 1]));
    lemma_run_end(s, e + 1, f, true);
    if p.len() == 1 {
        assert(s[0] == '第');
    }
    assert(after_ordinal(s, 0) == a);
    assert(volume_segment(s) is None);
    assert(chapter_segment(s, 0) == Some((0int, a, e, q, true)));
    assert(whole_series_idiom(s) is None);
    lemma_range_keeps_title(s);
}

/// A Chinese numeral and an Arabic one of the same magnitude read as the same
/// number.
pub proof fn lemma_chinese_arabic_agree(c: Seq<char>, d: Seq<char>)
    requires
        cjk_text(c),
        d.len() > 0,
        all_digits(d),
        chinese_value(c) matches Some(v) && v == digits_value(d),
    ensures
        numeral_value(c) == numeral_value(d),
        numeral_value(c) == Some(Decimal { mantissa: chinese_value(c)->Some_0, scale: 0 }),
{
    assert(!is_digit(c[0]));
    assert(digits_prefix(c) == 0);
    assert(decimal_literal(c) is None);
    lemma_all_digits_prefix(d);
    assert(strip_zeros(Seq::<char>::empty()) == Seq::<char>::empty());
    assert(d + Seq::<char>::empty() =~= d);
}

/// Titles that write the same chapter number in Chinese numerals and in
/// digits, with the same optional `第` and chapter marker, parse to the same
/// chapter number.
pub proof fn lemma_numeral_systems_agree(p: Seq<char>, c: Seq<char>, d: Seq<char>, m: Seq<char>)
    requires
        is_ordinal_prefix(p),
        cjk_text(c),
        d.len() > 0,
        all_digits(d),
        chinese_value(c) matches Some(v) && v == digits_value(d),
        is_chapter_suffix(m),
    ensures
        parse_title(p + c + m).1 == parse_title(p + d + m).1,
        parse_title(p + c + m).1 == Some(Decimal { mantissa: chinese_value(c)->Some_0, scale: 0 }),
{
    lemma_chinese_arabic_agree(c, d);
    lemma_all_digits_prefix(d);
    lemma_lone_chapter_text(p, c, m);
    lemma_lone_chapter_text(p, d, m);
}

pub open spec fn view3(r: Option<(usize, usize, usize)>) -> Option<(int, int, int)> {
    match r {
        Some((a, b, c)) => Some((a as int, b as int, c as int)),
        None => None,
    }
}

pub open spec fn view5(r: Option<(usize, usize, usize, usize, bool)>) -> Option<
    (int, int, int, int, bool),
> {
    match r {
        Some((a, b, c, d, e)) => Some((a as int, b as int, c as int, d as int, e)),
        None => None,
    }
}

pub fn is_cjk_numeral_char(c: char) -> (r: bool)
    ensures
        r == is_cjk_numeral(c),
{
    c == '零' || c == '一' || c == '二' || c == '三' || c == '四' || c == '五' || c == '六'
        || c == '七' || c == '八' || c == '九' || c == '十' || c == '百' || c == '千'
}

fn run_end_of(s: &[char], i: usize, digits_only: bool) -> (r: usize)
    requires
        i <= s@.len(),
    ensures
        r == run_end(s@, i as int, digits_only),
        i <= r <= s@.len(),
{
    let mut j = i;
    while j < s.len() && (is_ascii_digit(s[j]) || (!digits_only && is_cjk_numeral_char(s[j])))
        invariant
            i <= j <= s@.len(),
            run_end(s@, i as int, digits_only) == run_end(s@, j as int, digits_only),
        decreases s@.len() - j,
    {
        j = j + 1;
    }
    j
}

fn fraction_end_of(s: &[char], r: usize) -> (e: usize)
    requires
        r <= s@.len(),
    ensures
        e == fraction_end(s@, r as int),
        r <= e <= s@.len(),
{
    if r < s.len() && r + 1 < s.len() && s[r] == '.' && is_ascii_digit(s[r + 1]) {
        run_end_of(s, r + 1, true)
    } else {
        r
    }
}

fn numeral_end_of(s: &[char], i: usize) -> (r: Option<usize>)
    requires
        i <= s@.len(),
    ensures
        match r {
            Some(n) => numeral_end(s@, i as int) == Some(n as int) && i < n <= s@.len(),
            None => numeral_end(s@, i as int) is None,
        },
{
    let r = run_end_of(s, i, false);
    if r == i {
        None
    } else {
        Some(fraction_end_of(s, r))
    }
}

fn after_ordinal_of(s: &[char], i: usize) -> (r: usize)
    requires
        i <= s@.len(),
    ensures
        r == after_ordinal(s@, i as int),
        i <= r <= s@.len(),
{
    if i < s.len() && s[i] == '第' {
        i + 1
    } else {
        i
    }
}

fn boundary_at(s: &[char], q: usize) -> (r: bool)
    ensures
        r == boundary(s@, q as int),
{
    q == s.len() || (q < s.len() && (s[q] == ' ' || s[q] == '+'))
}

fn volume_segment_of(s: &[char]) -> (r: Option<(usize, usize, usize)>)
    ensures
        view3(r) == volume_segment(s@),
        r matches Some((a, n, e)) ==> a <= n < e <= s@.len(),
{
    let a = after_ordinal_of(s, 0);
    match numeral_end_of(s, a) {
        Some(n) => {
            if n < s.len() && (s[n] == '卷' || s[n] == '部' || s[n] == '季' || s[n] == '冊' || s[n]
                == '册') {
                Some((a, n, n + 1))
            } else {
                None
            }
        },
        None => None,
    }
}

fn chapter_segment_of(s: &[char], p: usize) -> (r: Option<(usize, usize, usize, usize, bool)>)
    requires
        p <= s@.len(),
    ensures
        view5(r) == chapter_segment(s@, p as int),
        r matches Some((b, a, n, q, _)) ==> b == p && p <= a <= n <= q <= s@.len(),
{
    let a = after_ordinal_of(s, p);
    match numeral_end_of(s, a) {
        Some(n) => {
            let m = if n < s.len() && n + 1 < s.len() && s[n] == '-' && is_ascii_digit(s[n + 1]) {
                let d = run_end_of(s, n + 1, true);
                fraction_end_of(s, d)
            } else {
                n
            };
            let q = if m < s.len() && (s[m] == '话' || s[m] == '話' || s[m] == '回') {
                m + 1
            } else {
                m
            };
            if boundary_at(s, q) {
                Some((p, a, n, q, m != n))
            } else {
                None
            }
        },
        None => None,
    }
}

fn match_without_volume_of(s: &[char]) -> (r: Option<
    (Option<(usize, usize, usize)>, Option<(usize, usize, usize, usize, bool)>),
>)
    ensures
        match r {
            Some((v, c)) => match_without_volume(s@) == Some((view3(v), view5(c))) && v is None
                && (c matches Some((b, a, n, q, _)) ==> b <= a <= n <= q <= s@.len()),
            None => match_without_volume(s@) is None,
        },
{
    match chapter_segment_of(s, 0) {
        Some(c) => Some((None, Some(c))),
        None => if boundary_at(s, 0) {
            Some((None, None))
        } else {
            None
        },
    }
}

/// `title_match` computed.
fn title_match_of(s: &[char]) -> (r: Option<
    (Option<(usize, usize, usize)>, Option<(usize, usize, usize, usize, bool)>),
>)
    ensures
        match r {
            Some((v, c)) => title_match(s@) == Some((view3(v), view5(c)))
                && (v matches Some((a, n, e)) ==> a <= n <= e <= s@.len())
                && (c matches Some((b, a, n, q, _)) ==> b <= a <= n <= q <= s@.len()),
            None => title_match(s@) is None,
        },
{
    match volume_segment_of(s) {
        Some((va, vn, ve)) => {
            if ve < s.len() && s[ve] == ' ' {
                match chapter_segment_of(s, ve + 1) {
                    Some(c) => Some((Some((va, vn, ve + 1)), Some(c))),
                    None => if boundary_at(s, ve + 1) {
                        Some((Some((va, vn, ve + 1)), None))
                    } else {
                        Some((Some((va, vn, ve)), None))
                    },
                }
            } else {
                match chapter_segment_of(s, ve) {
                    Some(c) => Some((Some((va, vn, ve)), Some(c))),
                    None => if boundary_at(s, ve) {
                        Some((Some((va, vn, ve)), None))
                    } else {
                        match_without_volume_of(s)
                    },
                }
            }
        },
        None => match_without_volume_of(s),
    }
}

fn whole_series_idiom_of(s: &[char]) -> (r: Option<bool>)
    ensures
        r == whole_series_idiom(s@),
{
    if s.len() >= 3 && s[0] == '全' && (s[1] == '一' || s[1] == '1') {
        if s[2] == '卷' || s[2] == '冊' || s[2] == '册' {
            Some(true)
        } else if s[2] == '話' || s[2] == '话' || s[2] == '回' {
            Some(false)
        } else {
            None
        }
    } else {
        None
    }
}

fn residual_title_of(
    s: &[char],
    v: Option<(usize, usize, usize)>,
    c: Option<(usize, usize, usize, usize, bool)>,
) -> (r: Option<String>)
    requires
        v matches Some((a, n, e)) ==> a <= n <= e <= s@.len(),
        c matches Some((b, a, n, q, _)) ==> b <= a <= n <= q <= s@.len(),
    ensures
        opt_view(r) == residual_title(s@, (view3(v), view5(c))),
{
    let t1 = match v {
        Some((_, _, ve)) => {
            let pat = slice_chars(s, 0, ve);
            remove_all_chars(s, &pat)
        },
        None => slice_chars(s, 0, s.len()),
    };
    assert(s@.subrange(0, s@.len() as int) =~= s@);
    let t2 = match c {
        Some((p, _, _, q, range)) => if range {
            t1
        } else {
            let pat = slice_chars(s, p, q);
            remove_all_chars(&t1, &pat)
        },
        None => t1,
    };
    let t3 = trim_chars(&t2);
    if t3.len() == 0 {
        None
    } else {
        Some(string_of(&t3))
    }
}

/// Reads a raw chapter title into `(volume number, chapter number, title)`.
///
/// `全一卷` and `全一冊` give volume 1, `全一話` and `全一回` chapter 1, each
/// with the title unchanged. Otherwise each number is read from the numeral
/// of its segment; the title is what is left once the volume token and,
/// unless it has a range such as `03-05`, the chapter token are taken out,
/// trimmed, and absent when empty. A title that does not match the pattern is
/// returned whole with no numbers.
pub fn parse(title: &str) -> (r: (Option<Decimal>, Option<Decimal>, Option<String>))
    ensures
        (r.0, r.1, opt_view(r.2)) == parse_title(title@),
{
    let s = chars_of(title);
    match whole_series_idiom_of(&s) {
        Some(true) => return (Some(Decimal::whole(1)), None, Some(string_of(&s))),
        Some(false) => return (None, Some(Decimal::whole(1)), Some(string_of(&s))),
        None => {},
    }
    match title_match_of(&s) {
        None => (None, None, Some(string_of(&s))),
        Some((v, c)) => {
            let volume = match v {
                Some((a, n, _)) => parse_numeral(&slice_chars(&s, a, n)),
                None => None,
            };
            let chapter = match c {
                Some((_, a, n, _, _)) => parse_numeral(&slice_chars(&s, a, n)),
                None => None,
            };
            (volume, chapter, residual_title_of(&s, v, c))
        },
    }
}

} // verus!
