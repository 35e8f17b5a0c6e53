//! The boylove source: home sections, listings, deep links and login.
use crate::error::{quote, quoted, Error};
use crate::models::{
    views, DeepLinkResult, Listing,
};
use crate::route::Url;
use crate::signing::{day_id, day_name, weekday_utc8, DayOfWeek};
use crate::text::{pieces, split_chars, str_eq};
use vstd::prelude::*;

verus! {

/// The host the site is served from.
pub const HOST: &'static str = "boylove.cc";

pub fn listing(id: &str, name: &str) -> (r: Listing)
    ensures
        r.id@ == id@,
        r.name@ == name@,
{
    Listing { id: id.to_string(), name: name.to_string() }
}

pub open spec fn listing_view(l: Option<Listing>) -> Option<(Seq<char>, Seq<char>)> {
    match l {
        Some(l) => Some((l.id@, l.name@)),
        None => None,
    }
}

/// The feed a listing is read from, and so the shape of its response.
#[derive(Clone, Copy, Debug, PartialEq, Eq, Structural)]
pub enum Feed {
    /// The daily-update feed, paged by a cursor and a page count.
    DailyUpdate,
    /// A paged listing with a last-page flag.
    Paged,
    /// The "you may like" feed, without paging.
    Random,
}

pub open spec fn is_daily_name(n: Seq<char>) -> bool {
    n == "最新"@ || n == "週一"@ || n == "週二"@ || n == "週三"@ || n == "週四"@ || n == "週五"@
        || n == "週六"@ || n == "週日"@
}

/// The feed and route of page `page` of a listing, chosen by the listing's
/// name; an unknown name fails.
pub fn listing_route(l: &Listing, page: i32) -> (r: Result<(Feed, Url), Error>)
    ensures
        match r {
            Ok((f, u)) => if is_daily_name(l.name@) {
                f == Feed::DailyUpdate && crate::route::route_path(u)
                    == crate::route::daily_update_path(l.id@, page)
            } else if l.name@ == "無碼專區"@ || l.name@ == "排行榜"@ {
                f == Feed::Paged && crate::route::route_path(u) == crate::route::listing_path(
                    l.id@,
                    page,
                )
            } else {
                l.name@ == "猜你喜歡"@ && f == Feed::Random && crate::route::route_path(u)
                    == "/home/Api/getCnxh.html?limit=5&type=1"@
            },
            Err(e) => !is_daily_name(l.name@) && l.name@ != "無碼專區"@ && l.name@ != "排行榜"@
                && l.name@ != "猜你喜歡"@ && (e matches Error::Invalid(m) && m@ == quoted(
                "Invalid listing name: "@,
                l.name@,
            )),
        },
{
    let n = l.name.as_str();
    if str_eq(n, "最新") || str_eq(n, "週一") || str_eq(n, "週二") || str_eq(n, "週三") || str_eq(
        n,
        "週四",
    ) || str_eq(n, "週五") || str_eq(n, "週六") || str_eq(n, "週日") {
        Ok((Feed::DailyUpdate, Url::daily_update(l.id.as_str(), page)))
    } else if str_eq(n, "無碼專區") || str_eq(n, "排行榜") {
        Ok((Feed::Paged, Url::listing(l.id.as_str(), page)))
    } else if str_eq(n, "猜你喜歡") {
        Ok((Feed::Random, Url::random()))
    } else {
        Err(Error::Invalid(quote("Invalid listing name: ", n)))
    }
}

/// The name of a daily-update feed by its id: `11` for the latest, `0` to
/// `6` for Monday to Sunday.
pub open spec fn daily_feed_name(id: Seq<char>) -> Option<Seq<char>> {
    if id == "11"@ {
        Some("最新"@)
    } else if id == "0"@ {
        Some("週一"@)
    } else if id == "1"@ {
        Some("週二"@)
    } else if id == "2"@ {
        Some("週三"@)
    } else if id == "3"@ {
        Some("週四"@)
    } else if id == "4"@ {
        Some("週五"@)
    } else if id == "5"@ {
        Some("週六"@)
    } else if id == "6"@ {
        Some("週日"@)
    } else {
        None
    }
}

fn daily_feed_name_of(id: &str) -> (r: Option<&'static str>)
    ensures
        match r {
            Some(n) => daily_feed_name(id@) == Some(n@),
            None => daily_feed_name(id@) is None,
        },
{
    if str_eq(id, "11") {
        Some("最新")
    } else if str_eq(id, "0") {
        Some("週一")
    } else if str_eq(id, "1") {
        Some("週二")
    } else if str_eq(id, "2") {
        Some("週三")
    } else if str_eq(id, "3") {
        Some("週四")
    } else if str_eq(id, "4") {
        Some("週五")
    } else if str_eq(id, "5") {
        Some("週六")
    } else if str_eq(id, "6") {
        Some("週日")
    } else {
        None
    }
}

/// The `k`-th path segment of a link, counting from the first after the host.
pub open spec fn segment(url: Seq<char>, k: int) -> Option<Seq<char>> {
    let p = pieces(url, seq!['/']);
    if 3 + k < p.len() {
        Some(p[3 + k])
    } else {
        None
    }
}

/// Whether a link is on the site's host.
pub open spec fn on_host(url: Seq<char>) -> bool {
    let p = pieces(url, seq!['/']);
    p.len() > 2 && p[2] == HOST@
}

pub open spec fn is_seg(url: Seq<char>, k: int, s: Seq<char>) -> bool {
    segment(url, k) == Some(s)
}

/// What resolving a link needs next.
#[derive(Clone, Debug)]
pub enum LinkStep {
    /// Resolved: the entity, or no match.
    Done(Option<DeepLinkResult>),
    /// A chapter link: the chapter page must be loaded to read the link back
    /// to its series, then handed to `chapter_link`.
    FetchChapter { key: String },
}

/// Whether `r` is what resolving `url` at `now` gives.
pub open spec fn link_step_of(url: Seq<char>, now: i64, r: Result<LinkStep, Error>) -> bool {
    if !on_host(url) {
        r matches Ok(LinkStep::Done(None))
    } else if is_seg(url, 0, "home"@) && is_seg(url, 1, "book"@) && is_seg(url, 2, "index"@)
        && is_seg(url, 3, "id"@) && segment(url, 4) is Some {
        r matches Ok(LinkStep::Done(Some(DeepLinkResult::Manga { key }))) && Some(key@) == segment(
            url,
            4,
        )
    } else if is_seg(url, 0, "home"@) && is_seg(url, 1, "book"@) && is_seg(url, 2, "capter"@)
        && is_seg(url, 3, "id"@) && segment(url, 4) is Some {
        r matches Ok(LinkStep::FetchChapter { key }) && Some(key@) == segment(url, 4)
    } else if is_seg(url, 0, "home"@) && is_seg(url, 1, "index"@) && is_seg(
        url,
        2,
        "dailyupdate1"@,
    ) && segment(url, 3) is None {
        match r {
            Ok(LinkStep::Done(Some(DeepLinkResult::Listing(l)))) => l.id@ == day_id(
                weekday_utc8(now as int),
            ) && l.name@ == day_name(weekday_utc8(now as int)),
            Err(_) => !(-8_000_000_000_000 <= now <= 8_000_000_000_000),
            _ => false,
        }
    } else if is_seg(url, 0, "home"@) && is_seg(url, 1, "index"@) && is_seg(
        url,
        2,
        "dailyupdate1"@,
    ) && is_seg(url, 3, "weekday"@) && segment(url, 4) is Some {
        match daily_feed_name(segment(url, 4)->Some_0) {
            Some(n) => r matches Ok(LinkStep::Done(Some(DeepLinkResult::Listing(l)))) && Some(l.id@)
                == segment(url, 4) && l.name@ == n,
            None => r matches Ok(LinkStep::Done(None)),
        }
    } else if is_seg(url, 0, "home"@) && is_seg(url, 1, "index"@) && is_seg(url, 2, "pages"@)
        && is_seg(url, 3, "w"@) && (is_seg(url, 4, "recommend.html"@) || is_seg(
        url,
        4,
        "recommend"@,
    )) {
        r matches Ok(LinkStep::Done(Some(DeepLinkResult::Listing(l)))) && l.id@ == "recommend"@
            && l.name@ == "無碼專區"@
    } else if is_seg(url, 0, "home"@) && is_seg(url, 1, "index"@) && is_seg(url, 2, "pages"@)
        && is_seg(url, 3, "w"@) && (is_seg(url, 4, "topestmh.html"@) || is_seg(
        url,
        4,
        "topestmh"@,
    )) {
        r matches Ok(LinkStep::Done(Some(DeepLinkResult::Listing(l)))) && l.id@ == "topestmh"@
            && l.name@ == "排行榜"@
    } else {
        r matches Ok(LinkStep::Done(None))
    }
}

fn seg_is(p: &Vec<String>, k: usize, s: &str) -> (r: bool)
    ensures
        r == (3 + k < p@.len() && p@[3 + k]@ == s@),
{
    k < p.len() && p.len() - k > 3 && str_eq(p[3 + k].as_str(), s)
}

/// The first step of resolving a link `url` at time `now` (seconds since the
/// epoch): the entity it names, no match, or the chapter page to load first.
/// A link to another host, or of an unknown shape, is no match; the daily
/// update link without a day names today's feed.
pub fn handle_deep_link(url: &str, now: i64) -> (r: Result<LinkStep, Error>)
    ensures
        link_step_of(url@, now, r),
{
    let slash = ['/'];
    assert(slash@ =~= seq!['/']);
    let p = split_chars(url, &slash);
    let ghost pv = views(p@);
    assert(pv == pieces(url@, seq!['/']));
    if !(p.len() > 2 && str_eq(p[2].as_str(), HOST)) {
        return Ok(LinkStep::Done(None));
    }
    let n = p.len();
    let has4 = n > 7;
    if seg_is(&p, 0, "home") && seg_is(&p, 1, "book") && seg_is(&p, 2, "index") && seg_is(
        &p,
        3,
        "id",
    ) && has4 {
        return Ok(LinkStep::Done(Some(DeepLinkResult::Manga { key: p[7].clone() })));
    }
    if seg_is(&p, 0, "home") && seg_is(&p, 1, "book") && seg_is(&p, 2, "capter") && seg_is(
        &p,
        3,
        "id",
    ) && has4 {
        return Ok(LinkStep::FetchChapter { key: p[7].clone() });
    }
    if seg_is(&p, 0, "home") && seg_is(&p, 1, "index") && seg_is(&p, 2, "dailyupdate1") && n <= 6 {
        let today = DayOfWeek::today(now)?;
        return Ok(
            LinkStep::Done(
                Some(DeepLinkResult::Listing(listing(today.as_id(), today.as_name()))),
            ),
        );
    }
    if seg_is(&p, 0, "home") && seg_is(&p, 1, "index") && seg_is(&p, 2, "dailyupdate1") && seg_is(
        &p,
        3,
        "weekday",
    ) && has4 {
        return match daily_feed_name_of(p[7].as_str()) {
            Some(name) => Ok(
                LinkStep::Done(Some(DeepLinkResult::Listing(listing(p[7].as_str(), name)))),
            ),
            None => Ok(LinkStep::Done(None)),
        };
    }
    if seg_is(&p, 0, "home") && seg_is(&p, 1, "index") && seg_is(&p, 2, "pages") && seg_is(
        &p,
        3,
        "w",
    ) && (seg_is(&p, 4, "recommend.html") || seg_is(&p, 4, "recommend")) {
        return Ok(
            LinkStep::Done(Some(DeepLinkResult::Listing(listing("recommend", "無碼專區")))),
        );
    }
    if seg_is(&p, 0, "home") && seg_is(&p, 1, "index") && seg_is(&p, 2, "pages") && seg_is(
        &p,
        3,
        "w",
    ) && (seg_is(&p, 4, "topestmh.html") || seg_is(&p, 4, "topestmh")) {
        return Ok(LinkStep::Done(Some(DeepLinkResult::Listing(listing("topestmh", "排行榜")))));
    }
    Ok(LinkStep::Done(None))
}

/// A link whose host is not the site's resolves to no match, and never to an
/// error.
pub proof fn lemma_other_host_no_match(url: Seq<char>, now: i64, r: Result<LinkStep, Error>)
    requires
        link_step_of(url, now, r),
        !on_host(url),
    ensures
        r matches Ok(LinkStep::Done(None)),
{
}

/// Index of the last `/` in `s`, if any.
pub open spec fn last_slash(s: Seq<char>) -> Option<int>
    decreases s.len(),
{
    if s.len() == 0 {
        None
    } else if s.last() == '/' {
        Some(s.len() - 1)
    } else {
        last_slash(s.drop_last())
    }
}

pub(crate) fn last_slash_of(s: &[char]) -> (r: Option<usize>)
    ensures
        match r {
            Some(i) => last_slash(s@) == Some(i as int) && i < s@.len(),
            None => last_slash(s@) is None,
        },
{
    let mut k = s.len();
    assert(s@.take(k as int) =~= s@);
    while k > 0
        invariant
            k <= s@.len(),
            last_slash(s@) == last_slash(s@.take(k as int)),
        decreases k,
    {
        assert(s@.take(k as int).drop_last() =~= s@.take(k - 1));
        if s[k - 1] == '/' {
            return Some(k - 1);
        }
        k = k - 1;
    }
    None
}

/// What follows the last `/` of `s`, if `s` has one.
pub open spec fn after_last_slash(s: Seq<char>) -> Option<Seq<char>> {
    match last_slash(s) {
        Some(i) => Some(s.skip(i + 1)),
        None => None,
    }
}

/// The text after the last `/`, as `rsplit_once('/')` gives its second part.
pub fn after_last_slash_of(s: &str) -> (r: Option<String>)
    ensures
        crate::models::opt_view(r) == after_last_slash(s@),
{
    let v = crate::text::chars_of(s);
    match last_slash_of(&v) {
        Some(i) => {
            assert(i < v.len());
            let t = crate::text::slice_chars(&v, i + 1, v.len());
            assert(v@.subrange(i + 1, v@.len() as int) =~= v@.skip(i + 1));
            Some(crate::text::string_of(&t))
        },
        None => None,
    }
}

/// The second step of resolving a chapter link: the chapter `key` and the
/// link back to its series read from the chapter page.
pub fn chapter_link(key: &str, back_href: Option<String>) -> (r: Result<DeepLinkResult, Error>)
    ensures
        match back_href {
            None => r matches Err(Error::Missing(_)),
            Some(h) => match after_last_slash(h@) {
                Some(m) => r matches Ok(DeepLinkResult::Chapter { manga_key, key: k }) && manga_key@
                    == m && k@ == key@,
                None => r matches Err(Error::Invalid(_)),
            },
        },
{
    match back_href {
        None => Err(Error::Missing(quote("No element found for selector: ", "a.back"))),
        Some(h) => match after_last_slash_of(h.as_str()) {
            Some(m) => Ok(DeepLinkResult::Chapter { manga_key: m, key: key.to_string() }),
            None => Err(Error::Invalid(quote("Character not found: ", "/"))),
        },
    }
}

/// Whether a web login under `key` succeeded, given whether the site set
/// its `rfv` cookie. Only the `login` key is known.
pub fn handle_web_login(key: &str, has_rfv_cookie: bool) -> (r: Result<bool, Error>)
    ensures
        if key@ == "login"@ {
            r == Ok::<bool, Error>(has_rfv_cookie)
        } else {
            r matches Err(Error::Invalid(m)) && m@ == quoted("Invalid login key: "@, key@)
        },
{
    if !str_eq(key, "login") {
        return Err(Error::Invalid(quote("Invalid login key: ", key)));
    }
    Ok(has_rfv_cookie)
}

/// Whether a notification asks for the charset to be changed.
pub fn is_charset_notification(notification: &str) -> (r: bool)
    ensures
        r == (notification@ == "updatedCharset"@),
{
    str_eq(notification, "updatedCharset")
}

/// The options of the tag filter: the values of the tag buttons, without the
/// placeholder and "unsorted" entries.
pub open spec fn tag_options(values: Seq<Option<String>>) -> Seq<Seq<char>>
    decreases values.len(),
{
    if values.len() == 0 {
        Seq::empty()
    } else {
        let rest = tag_options(values.drop_last());
        match values.last() {
            Some(v) => if v@ == "0"@ || v@ == "待分類"@ || v@ == "待分类"@ {
                rest
            } else {
                rest.push(v@)
            },
            None => rest,
        }
    }
}

pub fn tag_options_of(values: &Vec<Option<String>>) -> (r: Vec<String>)
    ensures
        views(r@) == tag_options(values@),
{
    let mut r: Vec<String> = Vec::new();
    assert(values@.take(0) =~= Seq::<Option<String>>::empty());
    for i in 0..values.len()
        invariant
            views(r@) == tag_options(values@.take(i as int)),
    {
        assert(values@.take(i + 1).drop_last() =~= values@.take(i as int));
        match &values[i] {
            Some(v) => {
                let s = v.as_str();
                if !(str_eq(s, "0") || str_eq(s, "待分類") || str_eq(s, "待分类")) {
                    r.push(v.clone());
                }
            },
            None => {},
        }
        assert(views(r@) =~= tag_options(values@.take(i + 1)));
    }
    assert(values@.take(values@.len() as int) =~= values@);
    r
}

} // verus!
