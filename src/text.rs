//! Character-level helpers on strings.
use vstd::prelude::*;

verus! {

/// `String::push` appends one character.
pub assume_specification[ String::push ](s: &mut String, ch: char)
    ensures
        final(s)@ == old(s)@.push(ch),
;

/// The characters of `s`, in order.
pub fn chars_of(s: &str) -> (r: Vec<char>)
    ensures
        r@ == s@,
{
    let mut r: Vec<char> = Vec::new();
    for c in it: s.chars()
        invariant
            r@ == it.seq().take(it.index() as int),
    {
        r.push(c);
    }
    r
}

/// A string holding the characters of `v`.
pub fn string_of(v: &[char]) -> (r: String)
    ensures
        r@ == v@,
{
    let mut r = String::new();
    for i in 0..v.len()
        invariant
            r@ == v@.take(i as int),
    {
        r.push(v[i]);
    }
    r
}

/// Unicode `White_Space`, the set that `char::is_whitespace` tests.
pub open spec fn is_ws(c: char) -> bool {
    ('\u{9}' <= c && c <= '\u{d}') || c == ' ' || c == '\u{85}' || c == '\u{a0}'
        || c == '\u{1680}' || ('\u{2000}' <= c && c <= '\u{200a}') || c == '\u{2028}'
        || c == '\u{2029}' || c == '\u{202f}' || c == '\u{205f}' || c == '\u{3000}'
}

pub fn is_whitespace(c: char) -> (r: bool)
    ensures
        r == is_ws(c),
{
    ('\u{9}' <= c && c <= '\u{d}') || c == ' ' || c == '\u{85}' || c == '\u{a0}'
        || c == '\u{1680}' || ('\u{2000}' <= c && c <= '\u{200a}') || c == '\u{2028}'
        || c == '\u{2029}' || c == '\u{202f}' || c == '\u{205f}' || c == '\u{3000}'
}

/// `s` without its leading whitespace.
pub open spec fn trim_start(s: Seq<char>) -> Seq<char>
    decreases s.len(),
{
    if s.len() > 0 && is_ws(s[0]) {
        trim_start(s.drop_first())
    } else {
        s
    }
}

/// `s` without its trailing whitespace.
pub open spec fn trim_end(s: Seq<char>) -> Seq<char>
    decreases s.len(),
{
    if s.len() > 0 && is_ws(s.last()) {
        trim_end(s.drop_last())
    } else {
        s
    }
}

/// `s` without leading and trailing whitespace, as `str::trim` gives it.
pub open spec fn trim(s: Seq<char>) -> Seq<char> {
    trim_end(trim_start(s))
}

/// The bounds `(b, e)` such that `v[b..e]` is `v` trimmed.
pub fn trim_bounds(v: &[char]) -> (r: (usize, usize))
    ensures
        r.0 <= r.1 <= v@.len(),
        v@.subrange(r.0 as int, r.1 as int) == trim(v@),
{
    let mut b: usize = 0;
    assert(v@.skip(0) =~= v@);
    while b < v.len() && is_whitespace(v[b])
        invariant
            b <= v@.len(),
            trim_start(v@) == trim_start(v@.skip(b as int)),
        decreases v@.len() - b,
    {
        assert(v@.skip(b as int).drop_first() =~= v@.skip(b + 1));
        b = b + 1;
    }
    assert(trim_start(v@) =~= v@.subrange(b as int, v@.len() as int));
    let mut e: usize = v.len();
    while e > b && is_whitespace(v[e - 1])
        invariant
            b <= e <= v@.len(),
            trim(v@) == trim_end(v@.subrange(b as int, e as int)),
        decreases e,
    {
        assert(v@.subrange(b as int, e as int).drop_last() =~= v@.subrange(b as int, e - 1));
        e = e - 1;
    }
    (b, e)
}

/// `v` trimmed, as a new vector.
pub fn trim_chars(v: &[char]) -> (r: Vec<char>)
    ensures
        r@ == trim(v@),
{
    let (b, e) = trim_bounds(v);
    slice_chars(v, b, e)
}

/// `v[b..e]` as a new vector.
pub fn slice_chars(v: &[char], b: usize, e: usize) -> (r: Vec<char>)
    requires
        b <= e <= v@.len(),
    ensures
        r@ == v@.subrange(b as int, e as int),
{
    let mut r: Vec<char> = Vec::new();
    let mut i = b;
    while i < e
        invariant
            b <= i <= e <= v@.len(),
            r@ == v@.subrange(b as int, i as int),
        decreases e - i,
    {
        r.push(v[i]);
        i = i + 1;
    }
    r
}

/// Whether `pat` occurs in `s` at index `i`.
pub open spec fn occurs_at(s: Seq<char>, i: int, pat: Seq<char>) -> bool {
    0 <= i && i + pat.len() <= s.len() && s.subrange(i, i + pat.len()) == pat
}

pub fn matches_at(s: &[char], i: usize, pat: &[char]) -> (r: bool)
    ensures
        r == occurs_at(s@, i as int, pat@),
{
    if i > s.len() || pat.len() > s.len() - i {
        return false;
    }
    let mut k: usize = 0;
    while k < pat.len()
        invariant
            k <= pat@.len(),
            i <= s@.len(),
            i + pat@.len() <= s@.len(),
            i + pat.len() <= s.len(),
            forall|j: int| 0 <= j < k ==> s@[i + j] == pat@[j],
        decreases pat@.len() - k,
    {
        if s[i + k] != pat[k] {
            assert(s@.subrange(i as int, i + pat@.len())[k as int] != pat@[k as int]);
            return false;
        }
        k = k + 1;
    }
    assert(s@.subrange(i as int, i + pat@.len()) =~= pat@);
    true
}

/// `s` with every occurrence of `pat` removed, scanning from the left without
/// overlap, as `str::replace(s, pat, "")` gives it.
pub open spec fn remove_all(s: Seq<char>, pat: Seq<char>) -> Seq<char>
    decreases s.len(),
{
    if pat.len() == 0 || s.len() < pat.len() {
        s
    } else if s.take(pat.len() as int) == pat {
        remove_all(s.skip(pat.len() as int), pat)
    } else {
        seq![s[0]] + remove_all(s.drop_first(), pat)
    }
}

pub fn remove_all_chars(s: &[char], pat: &[char]) -> (r: Vec<char>)
    ensures
        r@ == remove_all(s@, pat@),
{
    let mut r: Vec<char> = Vec::new();
    if pat.len() == 0 {
        r = slice_chars(s, 0, s.len());
        assert(s@.subrange(0, s@.len() as int) =~= s@);
        return r;
    }
    let mut i: usize = 0;
    assert(s@.skip(0) =~= s@);
    assert(r@ + remove_all(s@, pat@) =~= remove_all(s@, pat@));
    while i < s.len()
        invariant
            i <= s@.len(),
            pat@.len() > 0,
            r@ + remove_all(s@.skip(i as int), pat@) == remove_all(s@, pat@),
        decreases s@.len() - i,
    {
        let ghost rest = s@.skip(i as int);
        if pat.len() <= s.len() - i && matches_at(s, i, pat) {
            assert(rest.take(pat@.len() as int) =~= pat@);
            assert(rest.skip(pat@.len() as int) =~= s@.skip(i + pat@.len()));
            i = i + pat.len();
        } else {
            assert(rest.drop_first() =~= s@.skip(i + 1));
            if pat.len() <= s.len() - i {
                assert(rest.take(pat@.len() as int) != pat@) by {
                    if rest.take(pat@.len() as int) == pat@ {
                        assert(s@.subrange(i as int, i + pat@.len()) =~= rest.take(
                            pat@.len() as int,
                        ));
                    }
                }
            } else {
                assert(remove_all(rest.drop_first(), pat@) == rest.drop_first());
                assert(rest =~= seq![rest[0]] + rest.drop_first());
            }
            assert(remove_all(rest, pat@) == seq![rest[0]] + remove_all(rest.drop_first(), pat@));
            let ghost r0 = r@;
            r.push(s[i]);
            assert(r@ + remove_all(s@.skip(i + 1), pat@) =~= r0 + (seq![rest[0]] + remove_all(
                rest.drop_first(),
                pat@,
            )));
            i = i + 1;
        }
    }
    assert(s@.skip(i as int) =~= Seq::<char>::empty());
    assert(r@ + Seq::<char>::empty() =~= r@);
    r
}

/// Whether two strings hold the same characters.
pub fn str_eq(a: &str, b: &str) -> (r: bool)
    ensures
        r == (a@ == b@),
{
    let x = chars_of(a);
    let y = chars_of(b);
    if x.len() != y.len() {
        return false;
    }
    let r = matches_at(&x, 0, &y);
    assert(x@.subrange(0, x@.len() as int) =~= x@);
    r
}

/// The pieces of `s` between the separator characters `seps`, as
/// `str::split` gives them: one more piece than separators, empty ones kept.
pub open spec fn pieces(s: Seq<char>, seps: Seq<char>) -> Seq<Seq<char>>
    decreases s.len(),
{
    if s.len() == 0 {
        seq![Seq::empty()]
    } else {
        let p = pieces(s.drop_last(), seps);
        if seps.contains(s.last()) {
            p.push(Seq::empty())
        } else {
            p.update(p.len() - 1, p.last().push(s.last()))
        }
    }
}

proof fn lemma_pieces_nonempty(s: Seq<char>, seps: Seq<char>)
    ensures
        pieces(s, seps).len() >= 1,
    decreases s.len(),
{
    if s.len() > 0 {
        lemma_pieces_nonempty(s.drop_last(), seps);
    }
}

fn contains_char(v: &[char], c: char) -> (r: bool)
    ensures
        r == v@.contains(c),
{
    for i in 0..v.len()
        invariant
            forall|j: int| 0 <= j < i ==> v@[j] != c,
    {
        if v[i] == c {
            return true;
        }
    }
    false
}

/// `pieces` computed, each piece as a string.
pub fn split_chars(s: &str, seps: &[char]) -> (r: Vec<String>)
    ensures
        crate::models::views(r@) == pieces(s@, seps@),
{
    let v = chars_of(s);
    let mut done: Vec<String> = Vec::new();
    let mut cur: Vec<char> = Vec::new();
    assert(v@.take(0) =~= Seq::<char>::empty());
    assert(crate::models::views(done@).push(cur@) =~= pieces(Seq::<char>::empty(), seps@));
    for i in 0..v.len()
        invariant
            v@ == s@,
            crate::models::views(done@).push(cur@) == pieces(v@.take(i as int), seps@),
    {
        let ghost t = v@.take(i + 1);
        assert(t.drop_last() =~= v@.take(i as int));
        proof {
            lemma_pieces_nonempty(v@.take(i as int), seps@);
        }
        if contains_char(seps, v[i]) {
            let piece = string_of(&cur);
            done.push(piece);
            cur = Vec::new();
            assert(crate::models::views(done@).push(cur@) =~= pieces(t, seps@));
        } else {
            let ghost p = pieces(v@.take(i as int), seps@);
            cur.push(v[i]);
            assert(crate::models::views(done@).push(cur@) =~= pieces(t, seps@));
        }
    }
    assert(v@.take(v@.len() as int) =~= v@);
    done.push(string_of(&cur));
    done
}

/// The non-empty strings of `ps`, in order.
pub open spec fn nonempty(ps: Seq<Seq<char>>) -> Seq<Seq<char>>
    decreases ps.len(),
{
    if ps.len() == 0 {
        Seq::empty()
    } else if ps.last().len() > 0 {
        nonempty(ps.drop_last()).push(ps.last())
    } else {
        nonempty(ps.drop_last())
    }
}

/// The strings of `ps` trimmed, those left empty dropped, in order.
pub open spec fn trimmed_nonempty(ps: Seq<Seq<char>>) -> Seq<Seq<char>>
    decreases ps.len(),
{
    if ps.len() == 0 {
        Seq::empty()
    } else if trim(ps.last()).len() > 0 {
        trimmed_nonempty(ps.drop_last()).push(trim(ps.last()))
    } else {
        trimmed_nonempty(ps.drop_last())
    }
}

/// The pieces of `s` between `seps` that are not empty.
pub fn split_nonempty(s: &str, seps: &[char]) -> (r: Vec<String>)
    ensures
        crate::models::views(r@) == nonempty(pieces(s@, seps@)),
{
    let ps = split_chars(s, seps);
    let ghost pv = crate::models::views(ps@);
    let mut r: Vec<String> = Vec::new();
    for i in 0..ps.len()
        invariant
            pv == crate::models::views(ps@),
            crate::models::views(r@) == nonempty(pv.take(i as int)),
    {
        assert(pv.take(i + 1).drop_last() =~= pv.take(i as int));
        assert(pv.take(i + 1).last() == ps@[i as int]@);
        if ps[i].as_str().unicode_len() > 0 {
            r.push(ps[i].clone());
        }
        assert(crate::models::views(r@) =~= nonempty(pv.take(i + 1)));
    }
    assert(pv.take(pv.len() as int) =~= pv);
    r
}

/// The pieces of `s` between `seps`, trimmed, those left empty dropped.
pub fn split_trimmed(s: &str, seps: &[char]) -> (r: Vec<String>)
    ensures
        crate::models::views(r@) == trimmed_nonempty(pieces(s@, seps@)),
{
    let ps = split_chars(s, seps);
    let ghost pv = crate::models::views(ps@);
    let mut r: Vec<String> = Vec::new();
    for i in 0..ps.len()
        invariant
            pv == crate::models::views(ps@),
            crate::models::views(r@) == trimmed_nonempty(pv.take(i as int)),
    {
        assert(pv.take(i + 1).drop_last() =~= pv.take(i as int));
        assert(pv.take(i + 1).last() == ps@[i as int]@);
        let t = trim_chars(&chars_of(ps[i].as_str()));
        if t.len() > 0 {
            r.push(string_of(&t));
        }
        assert(crate::models::views(r@) =~= trimmed_nonempty(pv.take(i + 1)));
    }
    assert(pv.take(pv.len() as int) =~= pv);
    r
}

/// Whether `t` is one of `v`.
pub fn contains_str(v: &Vec<String>, t: &str) -> (r: bool)
    ensures
        r == crate::models::views(v@).contains(t@),
{
    for i in 0..v.len()
        invariant
            forall|j: int| 0 <= j < i ==> v@[j]@ != t@,
    {
        if str_eq(v[i].as_str(), t) {
            assert(crate::models::views(v@)[i as int] == t@);
            return true;
        }
    }
    assert forall|j: int| 0 <= j < v@.len() implies crate::models::views(v@)[j] != t@ by {
        assert(v@[j]@ != t@);
    }
    false
}

/// Every line break, `\r\n` or `\n`, written as a Markdown hard break
/// (`"  \n"`), as `replace("\r\n", "\n").replace('\n', "  \n")` gives it.
pub open spec fn hard_breaks(s: Seq<char>) -> Seq<char>
    decreases s.len(),
{
    if s.len() == 0 {
        Seq::empty()
    } else if s.len() >= 2 && s[0] == '\r' && s[1] == '\n' {
        seq![' ', ' ', '\n'] + hard_breaks(s.skip(2))
    } else if s[0] == '\n' {
        seq![' ', ' ', '\n'] + hard_breaks(s.skip(1))
    } else {
        seq![s[0]] + hard_breaks(s.skip(1))
    }
}

pub fn hard_breaks_of(s: &[char]) -> (r: String)
    ensures
        r@ == hard_breaks(s@),
{
    let mut r = String::new();
    let mut i: usize = 0;
    assert(s@.skip(0) =~= s@);
    assert(r@ + hard_breaks(s@) =~= hard_breaks(s@));
    while i < s.len()
        invariant
            i <= s@.len(),
            r@ + hard_breaks(s@.skip(i as int)) == hard_breaks(s@),
        decreases s@.len() - i,
    {
        let ghost rest = s@.skip(i as int);
        let ghost r0 = r@;
        if i + 1 < s.len() && s[i] == '\r' && s[i + 1] == '\n' {
            assert(rest.skip(2) =~= s@.skip(i + 2));
            r.push(' ');
            r.push(' ');
            r.push('\n');
            assert(r@ + hard_breaks(s@.skip(i + 2)) =~= r0 + hard_breaks(rest));
            i = i + 2;
        } else if s[i] == '\n' {
            assert(rest.skip(1) =~= s@.skip(i + 1));
            r.push(' ');
            r.push(' ');
            r.push('\n');
            assert(r@ + hard_breaks(s@.skip(i + 1)) =~= r0 + hard_breaks(rest));
            i = i + 1;
        } else {
            assert(rest.skip(1) =~= s@.skip(i + 1));
            r.push(s[i]);
            assert(r@ + hard_breaks(s@.skip(i + 1)) =~= r0 + hard_breaks(rest));
            i = i + 1;
        }
    }
    assert(s@.skip(i as int) =~= Seq::<char>::empty());
    assert(r@ + Seq::<char>::empty() =~= r@);
    r
}

/// Whether `s` begins with `pat`.
pub fn starts_with(s: &str, pat: &str) -> (r: bool)
    ensures
        r == (pat@.len() <= s@.len() && s@.take(pat@.len() as int) == pat@),
{
    let x = chars_of(s);
    let y = chars_of(pat);
    let r = matches_at(&x, 0, &y);
    proof {
        if y@.len() <= x@.len() {
            assert(x@.subrange(0, y@.len() as int) =~= x@.take(y@.len() as int));
        }
    }
    r
}

/// The first index at or after `i` where `pat` occurs in `s`.
pub open spec fn find_from(s: Seq<char>, pat: Seq<char>, i: int) -> Option<int>
    decreases s.len() + 1 - i,
{
    if i < 0 || i + pat.len() > s.len() {
        None
    } else if occurs_at(s, i, pat) {
        Some(i)
    } else {
        find_from(s, pat, i + 1)
    }
}

/// The first index where `pat` occurs in `s`, as `str::find` gives it.
pub open spec fn find(s: Seq<char>, pat: Seq<char>) -> Option<int> {
    find_from(s, pat, 0)
}

/// `find` computed.
pub fn find_chars(s: &[char], pat: &[char]) -> (r: Option<usize>)
    ensures
        match r {
            Some(k) => find(s@, pat@) == Some(k as int) && k + pat@.len() <= s@.len(),
            None => find(s@, pat@) is None,
        },
{
    if pat.len() > s.len() {
        return None;
    }
    let mut i: usize = 0;
    while i < s.len() - pat.len()
        invariant
            pat@.len() <= s@.len(),
            i <= s@.len() - pat@.len(),
            find(s@, pat@) == find_from(s@, pat@, i as int),
        decreases s@.len() - pat@.len() - i,
    {
        if matches_at(s, i, pat) {
            return Some(i);
        }
        i = i + 1;
    }
    if matches_at(s, i, pat) {
        Some(i)
    } else {
        assert(find_from(s@, pat@, i + 1) is None);
        None
    }
}

/// `s` with every occurrence of `pat` replaced by `rep`, scanning from the
/// left without overlap, as `str::replace` gives it for a non-empty `pat`.
pub open spec fn replace_all(s: Seq<char>, pat: Seq<char>, rep: Seq<char>) -> Seq<char>
    decreases s.len(),
{
    if pat.len() == 0 || s.len() < pat.len() {
        s
    } else if s.take(pat.len() as int) == pat {
        rep + replace_all(s.skip(pat.len() as int), pat, rep)
    } else {
        seq![s[0]] + replace_all(s.drop_first(), pat, rep)
    }
}

/// `replace_all` computed.
pub fn replace_chars(s: &[char], pat: &[char], rep: &[char]) -> (r: Vec<char>)
    requires
        pat@.len() > 0,
    ensures
        r@ == replace_all(s@, pat@, rep@),
{
    let mut r: Vec<char> = Vec::new();
    let mut i: usize = 0;
    assert(s@.skip(0) =~= s@);
    assert(r@ + replace_all(s@, pat@, rep@) =~= replace_all(s@, pat@, rep@));
    while i < s.len()
        invariant
            i <= s@.len(),
            pat@.len() > 0,
            r@ + replace_all(s@.skip(i as int), pat@, rep@) == replace_all(s@, pat@, rep@),
        decreases s@.len() - i,
    {
        let ghost rest = s@.skip(i as int);
        let ghost r0 = r@;
        if pat.len() <= s.len() - i && matches_at(s, i, pat) {
            assert(rest.take(pat@.len() as int) =~= pat@);
            assert(rest.skip(pat@.len() as int) =~= s@.skip(i + pat@.len()));
            let mut k: usize = 0;
            while k < rep.len()
                invariant
                    k <= rep@.len(),
                    r@ == r0 + rep@.take(k as int),
                decreases rep@.len() - k,
            {
                r.push(rep[k]);
                assert(rep@.take(k + 1) =~= rep@.take(k as int).push(rep@[k as int]));
                k = k + 1;
            }
            assert(rep@.take(rep@.len() as int) =~= rep@);
            assert(r@ + replace_all(s@.skip(i + pat@.len()), pat@, rep@) =~= r0 + replace_all(
                rest,
                pat@,
                rep@,
            ));
            i = i + pat.len();
        } else {
            assert(rest.drop_first() =~= s@.skip(i + 1));
            if pat.len() <= s.len() - i {
                assert(rest.take(pat@.len() as int) != pat@) by {
                    if rest.take(pat@.len() as int) == pat@ {
                        assert(s@.subrange(i as int, i + pat@.len()) =~= rest.take(
                            pat@.len() as int,
                        ));
                    }
                }
            } else {
                assert(replace_all(rest.drop_first(), pat@, rep@) == rest.drop_first());
                assert(rest =~= seq![rest[0]] + rest.drop_first());
            }
            r.push(s[i]);
            assert(r@ + replace_all(s@.skip(i + 1), pat@, rep@) =~= r0 + (seq![rest[0]]
                + replace_all(rest.drop_first(), pat@, rep@)));
            i = i + 1;
        }
    }
    assert(s@.skip(i as int) =~= Seq::<char>::empty());
    assert(r@ + Seq::<char>::empty() =~= r@);
    r
}

/// `find_from` computed.
pub fn find_from_chars(s: &[char], pat: &[char], k: usize) -> (r: Option<usize>)
    ensures
        match r {
            Some(i) => find_from(s@, pat@, k as int) == Some(i as int) && k <= i && i + pat@.len()
                <= s@.len(),
            None => find_from(s@, pat@, k as int) is None,
        },
{
    if pat.len() > s.len() || k > s.len() - pat.len() {
        return None;
    }
    let mut i: usize = k;
    while i < s.len() - pat.len()
        invariant
            pat@.len() <= s@.len(),
            k <= i <= s@.len() - pat@.len(),
            find_from(s@, pat@, k as int) == find_from(s@, pat@, i as int),
        decreases s@.len() - pat@.len() - i,
    {
        if matches_at(s, i, pat) {
            return Some(i);
        }
        i = i + 1;
    }
    if matches_at(s, i, pat) {
        Some(i)
    } else {
        assert(find_from(s@, pat@, i + 1) is None);
        None
    }
}

/// The pieces of `s[k..]` between occurrences of `pat`, as `str::split`
/// gives them for a non-empty pattern.
pub open spec fn split_str_from(s: Seq<char>, pat: Seq<char>, k: int) -> Seq<Seq<char>>
    decreases s.len() - k,
{
    if k < 0 || k > s.len() {
        Seq::empty()
    } else {
        match find_from(s, pat, k) {
            Some(i) => if pat.len() > 0 && k <= i && i + pat.len() <= s.len() {
                seq![s.subrange(k, i)] + split_str_from(s, pat, i + pat.len())
            } else {
                seq![s.skip(k)]
            },
            None => seq![s.skip(k)],
        }
    }
}

/// The pieces trimmed and joined by `sep`.
pub open spec fn join_trimmed(ps: Seq<Seq<char>>, sep: Seq<char>) -> Seq<char>
    decreases ps.len(),
{
    if ps.len() == 0 {
        Seq::empty()
    } else if ps.len() == 1 {
        trim(ps[0])
    } else {
        join_trimmed(ps.drop_last(), sep) + sep + trim(ps.last())
    }
}

/// The pieces of `s` between occurrences of `pat`, each trimmed, joined by
/// `sep`.
pub fn split_trim_join(s: &[char], pat: &[char], sep: &str) -> (r: String)
    requires
        pat@.len() > 0,
    ensures
        r@ == join_trimmed(split_str_from(s@, pat@, 0), sep@),
{
    let mut r = String::new();
    let mut k: usize = 0;
    let mut n: usize = 0;
    let ghost mut done: Seq<Seq<char>> = Seq::empty();
    let slen = s.len();
    assert(done + split_str_from(s@, pat@, 0) =~= split_str_from(s@, pat@, 0));
    loop
        invariant
            slen == s@.len(),
            k <= s@.len(),
            n <= k || n == 0,
            pat@.len() > 0,
            split_str_from(s@, pat@, 0) == done + split_str_from(s@, pat@, k as int),
            r@ == join_trimmed(done, sep@),
            n == done.len(),
        decreases s@.len() - k,
    {
        let ghost d0 = done;
        let ghost r0 = r@;
        match find_from_chars(s, pat, k) {
            Some(i) => {
                let piece = trim_chars(&slice_chars(s, k, i));
                if n > 0 {
                    crate::encode::push_str(&mut r, sep);
                }
                let ps = string_of(&piece);
                crate::encode::push_str(&mut r, ps.as_str());
                proof {
                    let x = s@.subrange(k as int, i as int);
                    done = d0.push(x);
                    assert(done.drop_last() =~= d0);
                    assert(done.last() == x);
                    assert(d0 + split_str_from(s@, pat@, k as int) =~= done + split_str_from(
                        s@,
                        pat@,
                        i + pat@.len(),
                    ));
                    if d0.len() == 0 {
                        assert(r0 == Seq::<char>::empty());
                        assert(r@ =~= join_trimmed(done, sep@));
                    } else {
                        assert(r@ =~= join_trimmed(done, sep@));
                    }
                }
                assert(i + pat.len() <= slen);
                n = n + 1;
                k = i + pat.len();
            },
            None => {
                let piece = trim_chars(&slice_chars(s, k, s.len()));
                if n > 0 {
                    crate::encode::push_str(&mut r, sep);
                }
                let ps = string_of(&piece);
                crate::encode::push_str(&mut r, ps.as_str());
                proof {
                    let x = s@.subrange(k as int, s@.len() as int);
                    assert(x =~= s@.skip(k as int));
                    let fin = d0.push(x);
                    assert(fin.drop_last() =~= d0);
                    assert(d0 + split_str_from(s@, pat@, k as int) =~= fin);
                    if d0.len() == 0 {
                        assert(r@ =~= join_trimmed(fin, sep@));
                    } else {
                        assert(r@ =~= join_trimmed(fin, sep@));
                    }
                }
                return r;
            },
        }
    }
}

} // verus!
