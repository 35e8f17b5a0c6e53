//! The signed header pair that the image API asks for, and the day of the
//! week at the site's time zone.
use crate::encode::{int_text, push_int, push_str};
use crate::error::Error;
use chrono::{Datelike, FixedOffset, TimeZone};
use vstd::prelude::*;

verus! {

/// The MD5 digest of the UTF-8 bytes of `s`.
pub uninterp spec fn md5_of(s: Seq<char>) -> Seq<u8>;

/// Relies on md5::compute: the 16-byte MD5 digest of the string's bytes.
#[verifier::external_body]
fn md5_digest(s: &str) -> (r: Vec<u8>)
    ensures
        r@ == md5_of(s@),
        r@.len() == 16,
{
    md5::compute(s.as_bytes()).0.to_vec()
}

pub open spec fn hex_lower(d: nat) -> char {
    if d < 10 {
        crate::encode::digit_char(d)
    } else if d == 10 { 'a' } else if d == 11 { 'b' } else if d == 12 { 'c' }
    else if d == 13 { 'd' } else if d == 14 { 'e' } else { 'f' }
}

/// Two lower-case hex digits per byte.
pub open spec fn hex_text(b: Seq<u8>) -> Seq<char>
    decreases b.len(),
{
    if b.len() == 0 {
        Seq::empty()
    } else {
        hex_text(b.drop_last()) + seq![hex_lower(b.last() as nat / 16), hex_lower(b.last() as nat % 16)]
    }
}

fn hex_digit(d: u8) -> (c: char)
    requires
        d < 16,
    ensures
        c == hex_lower(d as nat),
{
    if d == 0 { '0' } else if d == 1 { '1' } else if d == 2 { '2' } else if d == 3 { '3' }
    else if d == 4 { '4' } else if d == 5 { '5' } else if d == 6 { '6' } else if d == 7 { '7' }
    else if d == 8 { '8' } else if d == 9 { '9' } else if d == 10 { 'a' } else if d == 11 { 'b' }
    else if d == 12 { 'c' } else if d == 13 { 'd' } else if d == 14 { 'e' } else { 'f' }
}

/// `b` as lower-case hex.
pub fn to_hex(b: &Vec<u8>) -> (r: String)
    ensures
        r@ == hex_text(b@),
{
    let mut r = String::new();
    for i in 0..b.len()
        invariant
            r@ == hex_text(b@.take(i as int)),
    {
        r.push(hex_digit(b[i] / 16));
        r.push(hex_digit(b[i] % 16));
        assert(b@.take(i + 1).drop_last() =~= b@.take(i as int));
        assert(r@ =~= hex_text(b@.take(i + 1)));
    }
    assert(b@.take(b@.len() as int) =~= b@);
    r
}

/// The `Tokenparam` header: the time, then the app version.
pub open spec fn token_parameter(now: i64) -> Seq<char> {
    int_text(now as int) + ",1.1.0"@
}

/// The `Token` header: the hex MD5 digest of the time followed by the fixed suffix.
pub open spec fn token(now: i64) -> Seq<char> {
    hex_text(md5_of(int_text(now as int) + "18comicAPPContent"@))
}

/// The `(Tokenparam, Token)` header pair for a request made at `now`, in
/// seconds since the epoch.
pub fn token_headers(now: i64) -> (r: (String, String))
    ensures
        r.0@ == token_parameter(now),
        r.1@ == token(now),
{
    let mut p = String::new();
    push_int(&mut p, now);
    push_str(&mut p, ",1.1.0");
    let mut t = String::new();
    push_int(&mut t, now);
    push_str(&mut t, "18comicAPPContent");
    let digest = md5_digest(t.as_str());
    (p, to_hex(&digest))
}

/// The site's time zone: UTC+8, in seconds east of UTC.
pub const SITE_UTC_OFFSET: i32 = 28800;

/// The day of the week, 0 for Monday to 6 for Sunday, at the time zone
/// `offset` seconds east of UTC, of the instant `ts` seconds after the epoch.
/// The epoch fell on a Thursday.
pub open spec fn weekday_at_offset(ts: int, offset: int) -> int {
    ((ts + offset) / 86400 + 3) % 7
}

/// The day of the week at the site's time zone.
pub open spec fn weekday_utc8(ts: int) -> int {
    weekday_at_offset(ts, SITE_UTC_OFFSET as int)
}

/// Relies on chrono: `FixedOffset::east_opt(offset)`, which accepts offsets
/// under a day, `timestamp_opt(ts, 0).single()`, which has a date for every
/// instant within chrono's years -262143 to 262142 (more than 8e12 seconds
/// either side of the epoch), and `Weekday::num_days_from_monday`.
#[verifier::external_body]
fn weekday_at(ts: i64, offset: i32) -> (r: Option<u32>)
    ensures
        r matches Some(d) ==> d as int == weekday_at_offset(ts as int, offset as int),
        -86400 < offset < 86400 && -8_000_000_000_000 <= ts <= 8_000_000_000_000 ==> r is Some,
{
    match FixedOffset::east_opt(offset) {
        Some(zone) => match zone.timestamp_opt(ts, 0).single() {
            Some(date) => Some(date.weekday().num_days_from_monday()),
            None => None,
        },
        None => None,
    }
}

/// A day of the week, 0 for Monday to 6 for Sunday.
#[derive(Clone, Copy, Debug, PartialEq, Eq, Structural)]
pub struct DayOfWeek(pub u32);

impl DayOfWeek {
    pub open spec fn wf(self) -> bool {
        self.0 < 7
    }

    /// The id of the day's update feed.
    pub fn as_id(&self) -> (r: &'static str)
        requires
            self.wf(),
        ensures
            r@ == day_id(self.0 as int),
    {
        match self.0 {
            0 => "0",
            1 => "1",
            2 => "2",
            3 => "3",
            4 => "4",
            5 => "5",
            _ => "6",
        }
    }

    /// The name of the day's update feed.
    pub fn as_name(&self) -> (r: &'static str)
        requires
            self.wf(),
        ensures
            r@ == day_name(self.0 as int),
    {
        match self.0 {
            0 => "週一",
            1 => "週二",
            2 => "週三",
            3 => "週四",
            4 => "週五",
            5 => "週六",
            _ => "週日",
        }
    }

    /// The day of the week at the site (UTC+8) at `now`, in seconds since the
    /// epoch; an error only for a clock reading beyond any calendar date.
    pub fn today(now: i64) -> (r: Result<DayOfWeek, Error>)
        ensures
            r matches Ok(d) ==> d.wf() && d.0 == weekday_utc8(now as int),
            -8_000_000_000_000 <= now <= 8_000_000_000_000 ==> r is Ok,
    {
        match weekday_at(now, SITE_UTC_OFFSET) {
            Some(d) => Ok(DayOfWeek(d)),
            None => {
                let mut m = String::new();
                push_str(&mut m, "Invalid or ambiguous timestamp: `");
                push_int(&mut m, now);
                push_str(&mut m, "`");
                Err(Error::Invalid(m))
            },
        }
    }
}

pub open spec fn day_id(d: int) -> Seq<char> {
    if d == 0 { "0"@ } else if d == 1 { "1"@ } else if d == 2 { "2"@ } else if d == 3 { "3"@ }
    else if d == 4 { "4"@ } else if d == 5 { "5"@ } else { "6"@ }
}

pub open spec fn day_name(d: int) -> Seq<char> {
    if d == 0 { "週一"@ } else if d == 1 { "週二"@ } else if d == 2 { "週三"@ }
    else if d == 3 { "週四"@ } else if d == 4 { "週五"@ } else if d == 5 { "週六"@ }
    else { "週日"@ }
}

} // verus!
