//! The TCB Scans source: project search, chapter labels and deep links.
use crate::error::Error;
use crate::liliana::{lowercase_of, to_lowercase};
use crate::models::{
    opt_view, opt_views, views, Chapter, ContentRating, DeepLinkResult, Manga, Viewer,
};
use crate::numeral::{decimal_literal, decimal_literal_of, Decimal};
use crate::text::{chars_of, find, find_chars, matches_at, slice_chars, string_of};
use vstd::prelude::*;

verus! {

pub const BASE_URL: &'static str = "https://tcbonepiecechapters.com";

/// Whether the project titled `title` matches `query`, case aside.
pub open spec fn title_matches(title: Seq<char>, query: Seq<char>) -> bool {
    find(lowercase_of(title), lowercase_of(query)) is Some
}

/// The projects of `ms` kept in `r`: those whose title matches.
pub open spec fn kept(r: Seq<Manga>, ms: Seq<Manga>, query: Seq<char>) -> bool
    decreases ms.len(),
{
    if ms.len() == 0 {
        r.len() == 0
    } else if title_matches(ms.last().title@, query) {
        r.len() > 0 && r.last() == ms.last() && kept(r.drop_last(), ms.drop_last(), query)
    } else {
        kept(r, ms.drop_last(), query)
    }
}

/// The projects a search shows: all of them without a query, else those
/// whose title holds the query, case aside.
pub fn filter_projects(projects: Vec<Manga>, query: Option<&str>) -> (r: Vec<Manga>)
    ensures
        match query {
            Some(q) => kept(r@, projects@, q@),
            None => r@ == projects@,
        },
{
    let q = match query {
        Some(q) => q,
        None => return projects,
    };
    let ql = chars_of(to_lowercase(q).as_str());
    let ghost all = projects@;
    let mut r: Vec<Manga> = Vec::new();
    let mut rest = projects;
    assert(all.take(0) =~= Seq::<Manga>::empty());
    assert(all.skip(0) =~= all);
    while rest.len() > 0
        invariant
            ql@ == lowercase_of(q@),
            rest@.len() <= all.len(),
            rest@ == all.skip(all.len() - rest@.len()),
            kept(r@, all.take(all.len() - rest@.len()), q@),
        decreases rest@.len(),
    {
        let ghost i = all.len() - rest@.len();
        let m = rest.remove(0);
        assert(m == all[i]);
        assert(rest@ =~= all.skip(i + 1));
        assert(all.take(i + 1).drop_last() =~= all.take(i));
        let tl = chars_of(to_lowercase(m.title.as_str()).as_str());
        if find_chars(&tl, &ql).is_some() {
            let ghost r0 = r@;
            r.push(m);
            assert(r@.drop_last() =~= r0);
        }
    }
    assert(all.take(all.len() as int) =~= all);
    r
}

/// The last word of a chapter label.
pub open spec fn last_word(s: Seq<char>) -> Option<Seq<char>> {
    match last_space(s) {
        Some(i) => Some(s.skip(i + 1)),
        None => None,
    }
}

pub open spec fn last_space(s: Seq<char>) -> Option<int>
    decreases s.len(),
{
    if s.len() == 0 {
        None
    } else if s.last() == ' ' {
        Some(s.len() - 1)
    } else {
        last_space(s.drop_last())
    }
}

/// The chapter number of a label such as "One Piece Chapter 1153": its last
/// word read as a decimal.
pub fn chapter_number(label: &str) -> (r: Option<Decimal>)
    ensures
        r == (match last_word(label@) {
            Some(w) => decimal_literal(w),
            None => None,
        }),
{
    let v = chars_of(label);
    let mut k = v.len();
    assert(v@.take(k as int) =~= v@);
    while k > 0
        invariant
            k <= v@.len(),
            v@ == label@,
            last_space(v@) == last_space(v@.take(k as int)),
        decreases k,
    {
        assert(v@.take(k as int).drop_last() =~= v@.take(k - 1));
        if v[k - 1] == ' ' {
            assert(v@.take(k as int).last() == v@[k - 1]);
            assert(last_space(v@) == Some(k - 1));
            let w = slice_chars(&v, k, v.len());
            assert(w@ =~= v@.skip(k as int));
            return decimal_literal_of(&w);
        }
        k = k - 1;
    }
    None
}

/// The series with the details its page at `url` shows: its title where the
/// page has one, its cover and description as the page has them; the site
/// publishes one safe, right-to-left series.
pub fn with_details(manga: Manga, title: Option<String>, cover: Option<String>, description: Option<String>, url: String) -> (r: Manga)
    ensures
        r.key == manga.key,
        r.title == (match title {
            Some(t) => t,
            None => manga.title,
        }),
        r.cover == cover,
        r.description == description,
        r.url == Some(url),
        r.content_rating == ContentRating::Safe,
        r.viewer == Viewer::RightToLeft,
        r.chapters == manga.chapters,
{
    let mut m = manga;
    if let Some(t) = title {
        m.title = t;
    }
    m.cover = cover;
    m.description = description;
    m.url = Some(url);
    m.content_rating = ContentRating::Safe;
    m.viewer = Viewer::RightToLeft;
    m
}

/// A chapter of the project page: keyed by its path, numbered by the last
/// word of its label, credited to the site's team.
pub fn chapter_from_card(key: String, title: Option<String>, label: Option<String>) -> (r: Chapter)
    ensures
        r.key == key,
        r.title == title,
        r.chapter_number == (match label {
            Some(l) => match last_word(l@) {
                Some(w) => decimal_literal(w),
                None => None,
            },
            None => None,
        }),
        opt_views(r.scanlators) == Some(seq!["TCB Scans"@]),
        opt_view(r.url) == Some(BASE_URL@ + key@),
{
    let mut url = BASE_URL.to_string();
    crate::encode::push_str(&mut url, key.as_str());
    let mut c = Chapter::new(key);
    c.title = title;
    c.chapter_number = match &label {
        Some(l) => chapter_number(l.as_str()),
        None => None,
    };
    let mut team: Vec<String> = Vec::new();
    team.push("TCB Scans".to_string());
    assert(views(team@) =~= seq!["TCB Scans"@]);
    c.scanlators = Some(team);
    c.url = Some(url);
    c
}

/// What resolving a link needs next.
#[derive(Clone, Debug)]
pub enum TcbLink {
    /// Resolved: the series, or no match.
    Done(Option<DeepLinkResult>),
    /// A chapter link: the chapter page must be loaded to read the link to
    /// its series, then handed to `chapter_link`.
    FetchChapter { path: String },
}

pub open spec fn has_prefix(s: Seq<char>, p: Seq<char>) -> bool {
    p.len() <= s.len() && s.take(p.len() as int) == p
}

/// What a link resolves to: a series under `/mangas/`, a chapter under
/// `/chapters/` once its page is read; no match elsewhere or on another site.
pub open spec fn link_step_of(url: Seq<char>, r: TcbLink) -> bool {
    if !has_prefix(url, BASE_URL@) {
        r matches TcbLink::Done(None)
    } else {
        let path = url.skip(BASE_URL@.len() as int);
        if has_prefix(path, "/mangas/"@) {
            r matches TcbLink::Done(Some(DeepLinkResult::Manga { key })) && key@ == path
        } else if has_prefix(path, "/chapters/"@) {
            r matches TcbLink::FetchChapter { path: p } && p@ == path
        } else {
            r matches TcbLink::Done(None)
        }
    }
}

/// A link that does not begin with the site's address, another host's among
/// them, resolves to no match.
pub proof fn lemma_foreign_link_no_match(url: Seq<char>, r: TcbLink)
    requires
        link_step_of(url, r),
        !has_prefix(url, BASE_URL@),
    ensures
        r matches TcbLink::Done(None),
{
}

fn prefix_of(v: &[char], p: &[char]) -> (r: bool)
    ensures
        r == has_prefix(v@, p@),
{
    let r = matches_at(v, 0, p);
    proof {
        if p@.len() <= v@.len() {
            assert(v@.subrange(0, p@.len() as int) =~= v@.take(p@.len() as int));
        }
    }
    r
}

/// The first step of resolving a link.
pub fn handle_deep_link(url: &str) -> (r: TcbLink)
    ensures
        link_step_of(url@, r),
{
    let v = chars_of(url);
    let b = chars_of(BASE_URL);
    if !prefix_of(&v, &b) {
        return TcbLink::Done(None);
    }
    let path = slice_chars(&v, b.len(), v.len());
    assert(path@ =~= v@.skip(b@.len() as int));
    if prefix_of(&path, &chars_of("/mangas/")) {
        TcbLink::Done(Some(DeepLinkResult::Manga { key: string_of(&path) }))
    } else if prefix_of(&path, &chars_of("/chapters/")) {
        TcbLink::FetchChapter { path: string_of(&path) }
    } else {
        TcbLink::Done(None)
    }
}

/// The second step of resolving a chapter link: the chapter's path and the
/// link to its series read from the chapter page.
pub fn chapter_link(path: &str, manga_href: Option<String>) -> (r: Result<DeepLinkResult, Error>)
    ensures
        match manga_href {
            Some(h) => r matches Ok(DeepLinkResult::Chapter { manga_key, key }) && manga_key == h
                && key@ == path@,
            None => r matches Err(Error::Missing(_)),
        },
{
    match manga_href {
        Some(h) => Ok(DeepLinkResult::Chapter { manga_key: h, key: path.to_string() }),
        None => Err(Error::Missing("Missing manga key".to_string())),
    }
}

} // verus!
