//! Decimal rendering of integers and percent-encoding of URI components.
use vstd::prelude::*;

verus! {

pub open spec fn digit_char(d: nat) -> char {
    if d == 0 { '0' } else if d == 1 { '1' } else if d == 2 { '2' } else if d == 3 { '3' }
    else if d == 4 { '4' } else if d == 5 { '5' } else if d == 6 { '6' } else if d == 7 { '7' }
    else if d == 8 { '8' } else { '9' }
}

/// Decimal digits of `n`, without leading zeros.
pub open spec fn nat_text(n: nat) -> Seq<char>
    decreases n,
{
    if n < 10 {
        seq![digit_char(n)]
    } else {
        nat_text(n / 10).push(digit_char(n % 10))
    }
}

/// `n` written in decimal, as `Display` writes integers.
pub open spec fn int_text(n: int) -> Seq<char> {
    if n < 0 {
        seq!['-'] + nat_text((-n) as nat)
    } else {
        nat_text(n as nat)
    }
}

fn digit_of(d: u64) -> (c: char)
    requires
        d < 10,
    ensures
        c == digit_char(d as nat),
{
    if d == 0 { '0' } else if d == 1 { '1' } else if d == 2 { '2' } else if d == 3 { '3' }
    else if d == 4 { '4' } else if d == 5 { '5' } else if d == 6 { '6' } else if d == 7 { '7' }
    else if d == 8 { '8' } else { '9' }
}

fn push_nat(out: &mut String, n: u64)
    ensures
        final(out)@ == old(out)@ + nat_text(n as nat),
    decreases n,
{
    if n >= 10 {
        push_nat(out, n / 10);
    }
    out.push(digit_of(n % 10));
}

/// Appends `n` in decimal.
pub fn push_int(out: &mut String, n: i64)
    ensures
        final(out)@ == old(out)@ + int_text(n as int),
{
    if n < 0 {
        out.push('-');
        let m: u64 = if n == i64::MIN {
            9223372036854775808u64
        } else {
            (-n) as u64
        };
        push_nat(out, m);
        assert(final(out)@ =~= old(out)@ + int_text(n as int));
    } else {
        push_nat(out, n as u64);
    }
}

/// Appends `s`.
pub fn push_str(out: &mut String, s: &str)
    ensures
        final(out)@ == old(out)@ + s@,
{
    out.append(s);
}

/// Characters that `encodeURIComponent` leaves as they are.
pub open spec fn is_unreserved(c: char) -> bool {
    ('A' <= c && c <= 'Z') || ('a' <= c && c <= 'z') || ('0' <= c && c <= '9') || c == '-'
        || c == '_' || c == '.' || c == '!' || c == '~' || c == '*' || c == '\'' || c == '('
        || c == ')'
}

/// The UTF-8 bytes of `c`.
pub open spec fn utf8(c: char) -> Seq<nat> {
    let u = c as u32 as nat;
    if u < 0x80 {
        seq![u]
    } else if u < 0x800 {
        seq![0xC0 + u / 64, 0x80 + u % 64]
    } else if u < 0x10000 {
        seq![0xE0 + u / 4096, 0x80 + (u / 64) % 64, 0x80 + u % 64]
    } else {
        seq![0xF0 + u / 262144, 0x80 + (u / 4096) % 64, 0x80 + (u / 64) % 64, 0x80 + u % 64]
    }
}

pub open spec fn hex_upper(d: nat) -> char {
    if d < 10 {
        digit_char(d)
    } else if d == 10 { 'A' } else if d == 11 { 'B' } else if d == 12 { 'C' }
    else if d == 13 { 'D' } else if d == 14 { 'E' } else { 'F' }
}

/// `%XX` for each byte, in upper-case hex.
pub open spec fn escape_bytes(b: Seq<nat>) -> Seq<char>
    decreases b.len(),
{
    if b.len() == 0 {
        Seq::empty()
    } else {
        escape_bytes(b.drop_last()) + seq!['%', hex_upper(b.last() / 16), hex_upper(b.last() % 16)]
    }
}

pub open spec fn escape_char(c: char) -> Seq<char> {
    if is_unreserved(c) {
        seq![c]
    } else {
        escape_bytes(utf8(c))
    }
}

/// `s` percent-encoded as `encodeURIComponent` does it.
pub open spec fn uri_component(s: Seq<char>) -> Seq<char>
    decreases s.len(),
{
    if s.len() == 0 {
        Seq::empty()
    } else {
        uri_component(s.drop_last()) + escape_char(s.last())
    }
}

fn hex_of(d: u32) -> (c: char)
    requires
        d < 16,
    ensures
        c == hex_upper(d as nat),
{
    if d < 10 {
        digit_of(d as u64)
    } else if d == 10 { 'A' } else if d == 11 { 'B' } else if d == 12 { 'C' }
    else if d == 13 { 'D' } else if d == 14 { 'E' } else { 'F' }
}

fn push_byte(out: &mut String, b: u32)
    requires
        b < 256,
    ensures
        final(out)@ == old(out)@ + seq!['%', hex_upper(b as nat / 16), hex_upper(b as nat % 16)],
{
    out.push('%');
    out.push(hex_of(b / 16));
    out.push(hex_of(b % 16));
    assert(final(out)@ =~= old(out)@ + seq!['%', hex_upper(b as nat / 16), hex_upper(b as nat % 16)]);
}

proof fn lemma_escape_bytes_push(b: Seq<nat>, x: nat)
    ensures
        escape_bytes(b.push(x)) == escape_bytes(b) + seq!['%', hex_upper(x / 16), hex_upper(x % 16)],
{
    assert(b.push(x).drop_last() =~= b);
}

fn push_escaped(out: &mut String, c: char)
    ensures
        final(out)@ == old(out)@ + escape_char(c),
{
    let u = c as u32;
    let ghost o = out@;
    if ('A' <= c && c <= 'Z') || ('a' <= c && c <= 'z') || ('0' <= c && c <= '9') || c == '-'
        || c == '_' || c == '.' || c == '!' || c == '~' || c == '*' || c == '\'' || c == '('
        || c == ')' {
        out.push(c);
        assert(out@ =~= o + seq![c]);
        return;
    }
    let ghost bs = utf8(c);
    proof {
        assert(seq![bs[0]] =~= Seq::<nat>::empty().push(bs[0]));
        lemma_escape_bytes_push(Seq::empty(), bs[0]);
        assert(escape_bytes(Seq::<nat>::empty()) == Seq::<char>::empty());
    }
    if u < 0x80 {
        push_byte(out, u);
        assert(bs =~= Seq::<nat>::empty().push(u as nat));
        assert(out@ =~= o + escape_bytes(bs));
    } else if u < 0x800 {
        push_byte(out, 0xC0 + u / 64);
        push_byte(out, 0x80 + u % 64);
        proof {
            let b1 = Seq::<nat>::empty().push(bs[0]);
            lemma_escape_bytes_push(b1, bs[1]);
            assert(bs =~= b1.push(bs[1]));
        }
        assert(out@ =~= o + escape_bytes(bs));
    } else if u < 0x10000 {
        push_byte(out, 0xE0 + u / 4096);
        push_byte(out, 0x80 + (u / 64) % 64);
        push_byte(out, 0x80 + u % 64);
        proof {
            let b1 = Seq::<nat>::empty().push(bs[0]);
            let b2 = b1.push(bs[1]);
            lemma_escape_bytes_push(b1, bs[1]);
            lemma_escape_bytes_push(b2, bs[2]);
            assert(bs =~= b2.push(bs[2]));
        }
        assert(out@ =~= o + escape_bytes(bs));
    } else {
        assert(u <= 0x10FFFF);
        push_byte(out, 0xF0 + u / 262144);
        push_byte(out, 0x80 + (u / 4096) % 64);
        push_byte(out, 0x80 + (u / 64) % 64);
        push_byte(out, 0x80 + u % 64);
        proof {
            let b1 = Seq::<nat>::empty().push(bs[0]);
            let b2 = b1.push(bs[1]);
            let b3 = b2.push(bs[2]);
            lemma_escape_bytes_push(b1, bs[1]);
            lemma_escape_bytes_push(b2, bs[2]);
            lemma_escape_bytes_push(b3, bs[3]);
            assert(bs =~= b3.push(bs[3]));
        }
        assert(out@ =~= o + escape_bytes(bs));
    }
}

/// Appends `s` percent-encoded as `encodeURIComponent` does it.
pub fn push_uri_component(out: &mut String, s: &str)
    ensures
        final(out)@ == old(out)@ + uri_component(s@),
{
    let ghost o = out@;
    assert(s@.take(0) =~= Seq::<char>::empty());
    for c in it: s.chars()
        invariant
            out@ == o + uri_component(it.seq().take(it.index() as int)),
            it.seq() == s@,
    {
        let ghost prev = it.seq().take(it.index() as int);
        push_escaped(out, c);
        assert(it.seq().take(it.index() + 1).drop_last() =~= prev);
        assert(out@ =~= o + uri_component(it.seq().take(it.index() + 1)));
    }
    assert(s@.take(s@.len() as int) =~= s@);
}

/// `s` percent-encoded as `encodeURIComponent` does it.
pub fn encode_uri_component(s: &str) -> (r: String)
    ensures
        r@ == uri_component(s@),
{
    let mut r = String::new();
    push_uri_component(&mut r, s);
    r
}

} // verus!
