//! The iken site template: sites served by a JSON API of posts (series) and
//! chapters, each configured by its base and API URLs.
use crate::encode::{int_text, push_int, push_str};
use crate::filters::FilterValue;
use crate::liliana::{strip_prefix_or_self, strip_prefix_or_self_of};
use crate::error::Error;
use crate::models::{
    opt_view, opt_views, views, Chapter, DeepLinkResult, Manga, MangaStatus, Page, PageContent,
    Viewer,
};
use crate::numeral::Decimal;
use crate::query::{push_pair, pair_views, push_query, query_text};
use crate::text::{
    chars_of, is_whitespace, is_ws, matches_at, slice_chars, starts_with, str_eq,
    string_of, trim, trim_chars,
};
use vstd::prelude::*;

verus! {

/// Series per page of the search endpoint.
pub const PER_PAGE: i32 = 18;

/// A site built on the template.
#[derive(Clone, Debug)]
pub struct Params {
    pub base_url: String,
    pub api_url: Option<String>,
    /// The post endpoint takes slugs rather than ids.
    pub use_slug_series_keys: bool,
    /// The post endpoint lacks some chapter fields; chapters come from their
    /// own endpoint.
    pub fetch_full_chapter_list: bool,
}

impl Params {
    /// The API's address: its own where the site has one, else the site's.
    pub open spec fn api(&self) -> Seq<char> {
        match self.api_url {
            Some(a) => a@,
            None => self.base_url@,
        }
    }

    pub fn get_api_url(&self) -> (r: String)
        ensures
            r@ == self.api(),
    {
        match &self.api_url {
            Some(a) => a.clone(),
            None => self.base_url.clone(),
        }
    }
}

/// The unaccented letter of an accented one, as one site's titles need it.
pub open spec fn accent_base(c: char) -> Option<char> {
    if c == 'á' || c == 'à' || c == 'ä' || c == 'â' {
        Some('a')
    } else if c == 'é' || c == 'è' || c == 'ë' || c == 'ê' {
        Some('e')
    } else if c == 'í' || c == 'ì' || c == 'ï' || c == 'î' {
        Some('i')
    } else if c == 'ó' || c == 'ò' || c == 'ö' || c == 'ô' {
        Some('o')
    } else if c == 'ú' || c == 'ù' || c == 'ü' || c == 'û' {
        Some('u')
    } else if c == 'ñ' {
        Some('n')
    } else if c == 'ç' {
        Some('c')
    } else {
        None
    }
}

pub fn remove_accents(c: char) -> (r: Option<char>)
    ensures
        r == accent_base(c),
{
    if c == 'á' || c == 'à' || c == 'ä' || c == 'â' {
        Some('a')
    } else if c == 'é' || c == 'è' || c == 'ë' || c == 'ê' {
        Some('e')
    } else if c == 'í' || c == 'ì' || c == 'ï' || c == 'î' {
        Some('i')
    } else if c == 'ó' || c == 'ò' || c == 'ö' || c == 'ô' {
        Some('o')
    } else if c == 'ú' || c == 'ù' || c == 'ü' || c == 'û' {
        Some('u')
    } else if c == 'ñ' {
        Some('n')
    } else if c == 'ç' {
        Some('c')
    } else {
        None
    }
}

pub open spec fn ascii_lower(c: char) -> char {
    if 'A' <= c && c <= 'Z' {
        ((c as u8) + 32) as char
    } else {
        c
    }
}

pub open spec fn is_ascii_alnum(c: char) -> bool {
    ('a' <= c && c <= 'z') || ('A' <= c && c <= 'Z') || ('0' <= c && c <= '9')
}

/// A character as a slug takes it: lower-cased, accents taken off.
pub open spec fn slug_char(c: char) -> char {
    match accent_base(ascii_lower(c)) {
        Some(b) => b,
        None => ascii_lower(c),
    }
}

/// The slug of `s` and whether it ends in a separator just added:
/// letters, digits and apostrophes kept, each run of whitespace and hyphens
/// made one hyphen, nothing else kept, no leading hyphen.
pub open spec fn slug_state(s: Seq<char>) -> (Seq<char>, bool)
    decreases s.len(),
{
    if s.len() == 0 {
        (Seq::empty(), false)
    } else {
        let (slug, prev) = slug_state(s.drop_last());
        let c = slug_char(s.last());
        if is_ascii_alnum(c) || c == '\'' {
            (slug.push(c), false)
        } else if is_ws(c) || c == '-' {
            if !prev && slug.len() > 0 {
                (slug.push('-'), true)
            } else {
                (slug, prev)
            }
        } else {
            (slug, prev)
        }
    }
}

/// The slug of a title, without a trailing hyphen.
pub open spec fn slug_of(s: Seq<char>) -> Seq<char> {
    let slug = slug_state(s).0;
    if slug.len() > 0 && slug.last() == '-' {
        slug.drop_last()
    } else {
        slug
    }
}

fn lower_ascii(c: char) -> (r: char)
    ensures
        r == ascii_lower(c),
{
    if 'A' <= c && c <= 'Z' {
        ((c as u8) + 32) as char
    } else {
        c
    }
}

/// The slug the site gives a title.
pub fn slugify(input: &str) -> (r: String)
    ensures
        r@ == slug_of(input@),
{
    let v = chars_of(input);
    let mut slug: Vec<char> = Vec::new();
    let mut prev_hyphen = false;
    assert(v@.take(0) =~= Seq::<char>::empty());
    for i in 0..v.len()
        invariant
            (slug@, prev_hyphen) == slug_state(v@.take(i as int)),
    {
        assert(v@.take(i + 1).drop_last() =~= v@.take(i as int));
        let l = lower_ascii(v[i]);
        let c = match remove_accents(l) {
            Some(b) => b,
            None => l,
        };
        if ('a' <= c && c <= 'z') || ('A' <= c && c <= 'Z') || ('0' <= c && c <= '9') || c == '\'' {
            slug.push(c);
            prev_hyphen = false;
        } else if is_whitespace(c) || c == '-' {
            if !prev_hyphen && slug.len() > 0 {
                slug.push('-');
                prev_hyphen = true;
            }
        }
    }
    assert(v@.take(v@.len() as int) =~= v@);
    if slug.len() > 0 && slug[slug.len() - 1] == '-' {
        slug.pop();
    }
    string_of(&slug)
}

/// The search endpoint's parameters: page, page size, the trimmed query if
/// any, the latest-update tag on sites with an `https://api.` address, then,
/// without a query only, one pair per select filter and the included genres
/// of a multi-select: a free-text query takes precedence over the filters.
pub open spec fn filter_pairs(fs: Seq<FilterValue>) -> Seq<(Seq<char>, Seq<char>)>
    decreases fs.len(),
{
    if fs.len() == 0 {
        Seq::empty()
    } else {
        let rest = filter_pairs(fs.drop_last());
        match fs.last() {
            FilterValue::Select { id, value } => rest.push((id@, value@)),
            FilterValue::MultiSelect { included, .. } => rest.push(
                ("genreIds"@, joined(views(included@), ','))),
            _ => rest,
        }
    }
}

/// The strings joined by `sep`.
pub open spec fn joined(ss: Seq<Seq<char>>, sep: char) -> Seq<char>
    decreases ss.len(),
{
    if ss.len() == 0 {
        Seq::empty()
    } else if ss.len() == 1 {
        ss[0]
    } else {
        joined(ss.drop_last(), sep).push(sep) + ss.last()
    }
}

pub fn join(ss: &Vec<String>, sep: char) -> (r: String)
    ensures
        r@ == joined(views(ss@), sep),
{
    let mut r = String::new();
    assert(views(ss@.take(0)) =~= Seq::<Seq<char>>::empty());
    for i in 0..ss.len()
        invariant
            r@ == joined(views(ss@.take(i as int)), sep),
    {
        let ghost t = views(ss@.take(i + 1));
        assert(t.drop_last() =~= views(ss@.take(i as int)));
        if i > 0 {
            r.push(sep);
        }
        push_str(&mut r, ss[i].as_str());
        assert(r@ =~= joined(t, sep));
    }
    assert(ss@.take(ss@.len() as int) =~= ss@);
    r
}

pub open spec fn search_pairs(api: Seq<char>, query: Option<Seq<char>>, page: i32, fs: Seq<FilterValue>) -> Seq<(Seq<char>, Seq<char>)> {
    let base = seq![("page"@, int_text(page as int)), ("perPage"@, "18"@)];
    let with_query = match query {
        Some(q) => base.push(("searchTerm"@, trim(q))),
        None => base,
    };
    let with_tag = if "https://api."@.len() <= api.len() && api.take("https://api."@.len() as int) == "https://api."@ {
        with_query.push(("tag"@, "latestUpdate"@)).push(("isNovel"@, "false"@))
    } else {
        with_query
    };
    match query {
        Some(_) => with_tag,
        None => with_tag + filter_pairs(fs),
    }
}

/// The search request's URL.
pub open spec fn search_url_of(api: Seq<char>, query: Option<Seq<char>>, page: i32, fs: Seq<FilterValue>) -> Seq<char> {
    api + "/api/query?"@ + query_text(search_pairs(api, query, page, fs))
}

pub fn search_url(params: &Params, query: Option<&str>, page: i32, filters: &Vec<FilterValue>) -> (r: String)
    ensures
        r@ == search_url_of(params.api(), crate::filters::opt_str_view(query), page, filters@),
{
    let api = params.get_api_url();
    let mut ps: Vec<(String, String)> = Vec::new();
    let mut p = String::new();
    push_int(&mut p, page as i64);
    push_pair(&mut ps, "page", p.as_str());
    let mut n = String::new();
    push_int(&mut n, PER_PAGE as i64);
    proof {
        reveal_strlit("18");
        assert(crate::encode::nat_text(1) == seq!['1']);
        assert(crate::encode::nat_text(18) == seq!['1'].push('8'));
        assert(int_text(18) =~= "18"@);
    }
    push_pair(&mut ps, "perPage", n.as_str());
    if let Some(q) = query {
        let t = string_of(&trim_chars(&chars_of(q)));
        push_pair(&mut ps, "searchTerm", t.as_str());
    }
    if starts_with(api.as_str(), "https://api.") {
        push_pair(&mut ps, "tag", "latestUpdate");
        push_pair(&mut ps, "isNovel", "false");
    }
    let ghost fixed = pair_views(ps@);
    assert(fixed =~= {
        let base = seq![("page"@, int_text(page as int)), ("perPage"@, "18"@)];
        let with_query = match crate::filters::opt_str_view(query) {
            Some(q) => base.push(("searchTerm"@, trim(q))),
            None => base,
        };
        if "https://api."@.len() <= api@.len() && api@.take("https://api."@.len() as int) == "https://api."@ {
            with_query.push(("tag"@, "latestUpdate"@)).push(("isNovel"@, "false"@))
        } else {
            with_query
        }
    });
    if query.is_some() {
        assert(pair_views(ps@) =~= search_pairs(
            params.api(),
            crate::filters::opt_str_view(query),
            page,
            filters@,
        ));
        let mut url = api;
        push_str(&mut url, "/api/query?");
        push_query(&mut url, &ps);
        return url;
    }
    assert(filters@.take(0) =~= Seq::<FilterValue>::empty());
    for i in 0..filters.len()
        invariant
            query is None,
            pair_views(ps@) == fixed + filter_pairs(filters@.take(i as int)),
    {
        assert(filters@.take(i + 1).drop_last() =~= filters@.take(i as int));
        assert(filters@.take(i + 1).last() == filters@[i as int]);
        match &filters[i] {
            FilterValue::Select { id, value } => {
                push_pair(&mut ps, id.as_str(), value.as_str());
            },
            FilterValue::MultiSelect { included, .. } => {
                let g = join(included, ',');
                push_pair(&mut ps, "genreIds", g.as_str());
            },
            _ => {},
        }
        assert(pair_views(ps@) =~= fixed + filter_pairs(filters@.take(i + 1)));
    }
    assert(filters@.take(filters@.len() as int) =~= filters@);
    let mut url = api;
    push_str(&mut url, "/api/query?");
    push_query(&mut url, &ps);
    url
}

/// Whether another search page follows: the total count exceeds what the
/// pages so far have shown.
pub fn has_next_page(total_count: i32, page: i32) -> (r: bool)
    ensures
        r == (total_count as int > page as int * PER_PAGE as int),
{
    (total_count as i64) > (page as i64) * (PER_PAGE as i64)
}

/// A page of search results: each post as a search result lists it, and
/// another page while the total count exceeds the series shown so far.
pub fn search_page(params: &Params, posts: &Vec<Post>, total_count: i32, page: i32) -> (r: crate::models::MangaPageResult)
    ensures
        r.entries@.len() == posts@.len(),
        forall|i: int|
            0 <= i < posts@.len() ==> (#[trigger] r.entries@[i]).key@ == posts@[i].key_of(
                params.use_slug_series_keys,
            ) && r.entries@[i].title@ == posts@[i].post_title@ && opt_view(r.entries@[i].cover)
                == opt_view(posts@[i].featured_image),
        r.has_next_page == (total_count as int > page as int * PER_PAGE as int),
{
    let mut entries: Vec<Manga> = Vec::new();
    for i in 0..posts.len()
        invariant
            entries@.len() == i,
            forall|j: int|
                0 <= j < i ==> (#[trigger] entries@[j]).key@ == posts@[j].key_of(
                    params.use_slug_series_keys,
                ) && entries@[j].title@ == posts@[j].post_title@ && opt_view(entries@[j].cover)
                    == opt_view(posts@[j].featured_image),
    {
        entries.push(posts[i].parse_basic_manga(params));
    }
    crate::models::MangaPageResult { entries, has_next_page: has_next_page(total_count, page) }
}

/// A free-text query takes precedence over every filter: with a query, the
/// search URL is the same whatever the filters are.
pub proof fn lemma_query_takes_precedence(
    api: Seq<char>,
    query: Seq<char>,
    page: i32,
    fs: Seq<FilterValue>,
    gs: Seq<FilterValue>,
)
    ensures
        search_url_of(api, Some(query), page, fs) == search_url_of(api, Some(query), page, gs),
{
}

/// The post endpoint's URL for a series key: a `/series/<slug>` path from the
/// home page or a slug where the site keys by slug, an id otherwise.
pub open spec fn post_url_of(api: Seq<char>, key: Seq<char>, use_slug: bool) -> Seq<char> {
    if "/series/"@.len() <= key.len() && key.take("/series/"@.len() as int) == "/series/"@ {
        api + "/api/post?postSlug="@ + key.skip("/series/"@.len() as int)
    } else if use_slug {
        api + "/api/post?postSlug="@ + key
    } else {
        api + "/api/post?postId="@ + key
    }
}

pub fn post_url(params: &Params, key: &str) -> (r: String)
    ensures
        r@ == post_url_of(params.api(), key@, params.use_slug_series_keys),
{
    let mut url = params.get_api_url();
    if starts_with(key, "/series/") {
        push_str(&mut url, "/api/post?postSlug=");
        let rest = strip_prefix_or_self_of(key, "/series/");
        push_str(&mut url, rest.as_str());
    } else if params.use_slug_series_keys {
        push_str(&mut url, "/api/post?postSlug=");
        push_str(&mut url, key);
    } else {
        push_str(&mut url, "/api/post?postId=");
        push_str(&mut url, key);
    }
    url
}

/// The chapter-list endpoint's URL for a post.
pub fn chapters_url(params: &Params, post_id: i32) -> (r: String)
    ensures
        r@ == params.api() + "/api/chapters?postId="@ + int_text(post_id as int),
{
    let mut url = params.get_api_url();
    push_str(&mut url, "/api/chapters?postId=");
    push_int(&mut url, post_id as i64);
    url
}

/// The chapter endpoint's URL for a chapter of a series.
pub fn chapter_url(params: &Params, manga_key: &str, chapter_key: &str) -> (r: String)
    ensures
        r@ == params.api() + "/api/chapter?postId="@ + manga_key@ + "&chapterId="@ + chapter_key@,
{
    let mut url = params.get_api_url();
    push_str(&mut url, "/api/chapter?postId=");
    push_str(&mut url, manga_key);
    push_str(&mut url, "&chapterId=");
    push_str(&mut url, chapter_key);
    url
}

pub open spec fn status_of(s: Option<Seq<char>>) -> MangaStatus {
    match s {
        Some(s) => if s == "ONGOING"@ || s == "COMING_SOON"@ {
            MangaStatus::Ongoing
        } else if s == "COMPLETED"@ || s == "ONE_SHOT"@ {
            MangaStatus::Completed
        } else if s == "CANCELLED"@ || s == "DROPPED"@ {
            MangaStatus::Cancelled
        } else if s == "HIATUS"@ {
            MangaStatus::Hiatus
        } else {
            MangaStatus::Unknown
        },
        None => MangaStatus::Unknown,
    }
}

pub fn series_status(s: &Option<String>) -> (r: MangaStatus)
    ensures
        r == status_of(opt_view(*s)),
{
    match s {
        Some(s) => {
            let s = s.as_str();
            if str_eq(s, "ONGOING") || str_eq(s, "COMING_SOON") {
                MangaStatus::Ongoing
            } else if str_eq(s, "COMPLETED") || str_eq(s, "ONE_SHOT") {
                MangaStatus::Completed
            } else if str_eq(s, "CANCELLED") || str_eq(s, "DROPPED") {
                MangaStatus::Cancelled
            } else if str_eq(s, "HIATUS") {
                MangaStatus::Hiatus
            } else {
                MangaStatus::Unknown
            }
        },
        None => MangaStatus::Unknown,
    }
}

pub open spec fn viewer_of(s: Option<Seq<char>>) -> Viewer {
    match s {
        Some(s) => if s == "MANGA"@ {
            Viewer::RightToLeft
        } else if s == "MANHUA"@ || s == "MANHWA"@ {
            Viewer::Webtoon
        } else {
            Viewer::Unknown
        },
        None => Viewer::Unknown,
    }
}

pub fn series_viewer(s: &Option<String>) -> (r: Viewer)
    ensures
        r == viewer_of(opt_view(*s)),
{
    match s {
        Some(s) => {
            let s = s.as_str();
            if str_eq(s, "MANGA") {
                Viewer::RightToLeft
            } else if str_eq(s, "MANHUA") || str_eq(s, "MANHWA") {
                Viewer::Webtoon
            } else {
                Viewer::Unknown
            }
        },
        None => Viewer::Unknown,
    }
}

/// The instant an RFC 3339 date and time names, in seconds since the epoch.
pub uninterp spec fn rfc3339_timestamp(s: Seq<char>) -> Option<i64>;

/// Relies on chrono's `DateTime::parse_from_rfc3339` and `timestamp`: the
/// result depends on the text alone.
#[verifier::external_body]
fn parse_rfc3339(s: &str) -> (r: Option<i64>)
    ensures
        r == rfc3339_timestamp(s@),
{
    match chrono::DateTime::parse_from_rfc3339(s) {
        Ok(d) => Some(d.timestamp()),
        Err(_) => None,
    }
}

/// A chapter as the API gives it.
#[derive(Clone, Debug)]
pub struct IkenChapter {
    pub id: i32,
    pub slug: String,
    pub number: Decimal,
    pub title: Option<String>,
    pub created_by: Option<String>,
    pub created_at: String,
    pub is_locked: Option<bool>,
    pub is_time_locked: Option<bool>,
}

/// A present, non-empty text.
pub open spec fn nonempty_opt(t: Option<String>) -> Option<Seq<char>> {
    match t {
        Some(t) => if t@.len() > 0 {
            Some(t@)
        } else {
            None
        },
        None => None,
    }
}

/// Whether `c` is the chapter `ch` of the series `manga_slug` describes.
pub open spec fn chapter_of(c: Chapter, ch: IkenChapter, base_url: Seq<char>, manga_slug: Seq<char>) -> bool {
    &&& c.key@ == int_text(ch.id as int)
    &&& opt_view(c.title) == nonempty_opt(ch.title)
    &&& c.chapter_number == Some(ch.number)
    &&& c.volume_number is None
    &&& c.date_uploaded == rfc3339_timestamp(ch.created_at@)
    &&& opt_views(c.scanlators) == (match ch.created_by {
        Some(a) => Some(seq![a@]),
        None => None,
    })
    &&& opt_view(c.url) == Some(base_url + "/series/"@ + manga_slug + "/"@ + ch.slug@)
    &&& c.locked == (match ch.is_locked {
        Some(l) => l,
        None => match ch.is_time_locked {
            Some(l) => l,
            None => false,
        },
    })
}

impl IkenChapter {
    pub fn parse_chapter(&self, base_url: &str, manga_slug: &str) -> (r: Chapter)
        ensures
            chapter_of(r, *self, base_url@, manga_slug@),
    {
        let mut key = String::new();
        push_int(&mut key, self.id as i64);
        let mut c = Chapter::new(key);
        c.title = match &self.title {
            Some(t) => if t.as_str().unicode_len() > 0 {
                Some(t.clone())
            } else {
                None
            },
            None => None,
        };
        c.chapter_number = Some(self.number);
        c.date_uploaded = parse_rfc3339(self.created_at.as_str());
        c.scanlators = match &self.created_by {
            Some(a) => {
                let mut v: Vec<String> = Vec::new();
                v.push(a.clone());
                assert(views(v@) =~= seq![a@]);
                Some(v)
            },
            None => None,
        };
        let mut url = base_url.to_string();
        push_str(&mut url, "/series/");
        push_str(&mut url, manga_slug);
        push_str(&mut url, "/");
        push_str(&mut url, self.slug.as_str());
        c.url = Some(url);
        c.locked = match self.is_locked {
            Some(l) => l,
            None => match self.is_time_locked {
                Some(l) => l,
                None => false,
            },
        };
        c
    }
}

/// The chapters of a list, in order, as `parse_chapter` gives each.
pub fn parse_chapters(chapters: &Option<Vec<IkenChapter>>, base_url: &str, manga_slug: &str) -> (r: Vec<Chapter>)
    ensures
        match chapters {
            Some(cs) => r@.len() == cs@.len() && forall|i: int|
                0 <= i < cs@.len() ==> chapter_of(#[trigger] r@[i], cs@[i], base_url@, manga_slug@),
            None => r@.len() == 0,
        },
{
    let mut r: Vec<Chapter> = Vec::new();
    if let Some(cs) = chapters {
        for i in 0..cs.len()
            invariant
                r@.len() == i,
                forall|j: int| 0 <= j < i ==> chapter_of(#[trigger] r@[j], cs@[j], base_url@, manga_slug@),
        {
            r.push(cs[i].parse_chapter(base_url, manga_slug));
        }
    }
    r
}

/// A series as the API gives it; `description` is the text of its HTML
/// content.
#[derive(Clone, Debug)]
pub struct Post {
    pub id: i32,
    pub slug: String,
    pub post_title: String,
    pub description: Option<String>,
    pub featured_image: Option<String>,
    pub author: Option<String>,
    pub artist: Option<String>,
    pub series_type: Option<String>,
    pub series_status: Option<String>,
    pub genres: Option<Vec<String>>,
    pub chapters: Option<Vec<IkenChapter>>,
}

/// A name as a one-element list, when present and not empty.
pub open spec fn name_list(n: Option<String>) -> Option<Seq<Seq<char>>> {
    match nonempty_opt(n) {
        Some(t) => Some(seq![t]),
        None => None,
    }
}

fn name_list_of(n: &Option<String>) -> (r: Option<Vec<String>>)
    ensures
        opt_views(r) == name_list(*n),
{
    match n {
        Some(t) => if t.as_str().unicode_len() > 0 {
            let mut v: Vec<String> = Vec::new();
            v.push(t.clone());
            assert(views(v@) =~= seq![t@]);
            Some(v)
        } else {
            None
        },
        None => None,
    }
}

impl Post {
    /// The series' key: its slug where the site keys by slug, else its id.
    pub open spec fn key_of(self, use_slug: bool) -> Seq<char> {
        if use_slug {
            self.slug@
        } else {
            int_text(self.id as int)
        }
    }

    /// The series as a search result lists it.
    pub fn parse_basic_manga(&self, params: &Params) -> (r: Manga)
        ensures
            r.key@ == self.key_of(params.use_slug_series_keys),
            r.title@ == self.post_title@,
            opt_view(r.cover) == opt_view(self.featured_image),
    {
        let key = if params.use_slug_series_keys {
            self.slug.clone()
        } else {
            let mut k = String::new();
            push_int(&mut k, self.id as i64);
            k
        };
        let mut m = Manga::new(key, self.post_title.clone());
        m.cover = self.featured_image.clone();
        m
    }

    /// The series with its details.
    pub fn parse_manga(&self, params: &Params) -> (r: Manga)
        ensures
            r.key@ == self.key_of(params.use_slug_series_keys),
            r.title@ == self.post_title@,
            opt_view(r.cover) == opt_view(self.featured_image),
            opt_views(r.artists) == name_list(self.artist),
            opt_views(r.authors) == name_list(self.author),
            opt_view(r.description) == (match self.description {
                Some(d) => Some(trim(d@)),
                None => None,
            }),
            opt_view(r.url) == Some(params.base_url@ + "/series/"@ + self.slug@),
            opt_views(r.tags) == opt_views(self.genres),
            r.status == status_of(opt_view(self.series_status)),
            r.viewer == viewer_of(opt_view(self.series_type)),
    {
        let mut m = self.parse_basic_manga(params);
        m.artists = name_list_of(&self.artist);
        m.authors = name_list_of(&self.author);
        m.description = match &self.description {
            Some(d) => Some(string_of(&trim_chars(&chars_of(d.as_str())))),
            None => None,
        };
        let mut url = params.base_url.clone();
        push_str(&mut url, "/series/");
        push_str(&mut url, self.slug.as_str());
        m.url = Some(url);
        m.tags = match &self.genres {
            Some(g) => Some(crate::error::copy_strings(g)),
            None => None,
        };
        m.status = series_status(&self.series_status);
        m.viewer = series_viewer(&self.series_type);
        m
    }

    /// The post's chapters, in the API's order.
    pub fn chapters(&self, base_url: &str) -> (r: Vec<Chapter>)
        ensures
            match self.chapters {
                Some(cs) => r@.len() == cs@.len() && forall|i: int|
                    0 <= i < cs@.len() ==> chapter_of(#[trigger] r@[i], cs@[i], base_url@, self.slug@),
                None => r@.len() == 0,
            },
    {
        parse_chapters(&self.chapters, base_url, self.slug.as_str())
    }
}

/// A post as the chapter-list endpoint gives it: its chapters only.
#[derive(Clone, Debug)]
pub struct PostWithOnlyChapters {
    pub chapters: Option<Vec<IkenChapter>>,
}

impl PostWithOnlyChapters {
    /// The chapters of the series `slug`, in the API's order.
    pub fn chapters(&self, base_url: &str, slug: &str) -> (r: Vec<Chapter>)
        ensures
            match self.chapters {
                Some(cs) => r@.len() == cs@.len() && forall|i: int|
                    0 <= i < cs@.len() ==> chapter_of(#[trigger] r@[i], cs@[i], base_url@, slug@),
                None => r@.len() == 0,
            },
    {
        parse_chapters(&self.chapters, base_url, slug)
    }
}

/// What a link on the site resolves to: the series of a `series/...` path;
/// for a chapter path, its series, as chapters are keyed by id rather than
/// by their slug. No match for anything else, other hosts included.
pub open spec fn link_key(base_url: Seq<char>, url: Seq<char>) -> Option<Seq<char>> {
    if !(base_url.len() <= url.len() && url.take(base_url.len() as int) == base_url) {
        None
    } else {
        let path = url.skip(base_url.len() as int);
        if !("series/"@.len() <= path.len() && path.take("series/"@.len() as int) == "series/"@) {
            None
        } else {
            match last_occurrence(path, "/chapter-"@) {
                Some(i) => Some(path.take(i)),
                None => Some(path),
            }
        }
    }
}

/// The last index where `pat` occurs in `s`, as `str::rfind` gives it.
pub open spec fn last_occurrence(s: Seq<char>, pat: Seq<char>) -> Option<int> {
    last_occurrence_below(s, pat, s.len() - pat.len())
}

pub open spec fn last_occurrence_below(s: Seq<char>, pat: Seq<char>, k: int) -> Option<int>
    decreases k + 1,
{
    if k < 0 {
        None
    } else if crate::text::occurs_at(s, k, pat) {
        Some(k)
    } else {
        last_occurrence_below(s, pat, k - 1)
    }
}

fn last_occurrence_of(s: &[char], pat: &[char]) -> (r: Option<usize>)
    ensures
        match r {
            Some(i) => last_occurrence(s@, pat@) == Some(i as int) && i <= s@.len(),
            None => last_occurrence(s@, pat@) is None,
        },
{
    if pat.len() > s.len() {
        return None;
    }
    let mut k = s.len() - pat.len();
    loop
        invariant
            k <= s@.len() - pat@.len(),
            pat@.len() <= s@.len(),
            last_occurrence(s@, pat@) == last_occurrence_below(s@, pat@, k as int),
        decreases k,
    {
        if matches_at(s, k, pat) {
            return Some(k);
        }
        if k == 0 {
            assert(last_occurrence_below(s@, pat@, -1) is None);
            return None;
        }
        k = k - 1;
    }
}

/// Resolves a link on the site to a series.
pub fn handle_deep_link(params: &Params, url: &str) -> (r: Option<DeepLinkResult>)
    ensures
        match link_key(params.base_url@, url@) {
            Some(k) => r matches Some(DeepLinkResult::Manga { key }) && key@ == k,
            None => r is None,
        },
{
    let v = chars_of(url);
    let b = chars_of(params.base_url.as_str());
    if !matches_at(&v, 0, &b) {
        proof {
            if b@.len() <= v@.len() && v@.take(b@.len() as int) == b@ {
                assert(v@.subrange(0, b@.len() as int) =~= v@.take(b@.len() as int));
            }
        }
        return None;
    }
    assert(v@.subrange(0, b@.len() as int) =~= v@.take(b@.len() as int));
    let path = slice_chars(&v, b.len(), v.len());
    assert(path@ =~= v@.skip(b@.len() as int));
    let series = chars_of("series/");
    if !matches_at(&path, 0, &series) {
        proof {
            if series@.len() <= path@.len() && path@.take(series@.len() as int) == series@ {
                assert(path@.subrange(0, series@.len() as int) =~= path@.take(series@.len() as int));
            }
        }
        return None;
    }
    assert(path@.subrange(0, series@.len() as int) =~= path@.take(series@.len() as int));
    match last_occurrence_of(&path, &chars_of("/chapter-")) {
        Some(i) => {
            let k = slice_chars(&path, 0, i);
            assert(k@ =~= path@.take(i as int));
            Some(DeepLinkResult::Manga { key: string_of(&k) })
        },
        None => Some(DeepLinkResult::Manga { key: string_of(&path) }),
    }
}

/// The pages of a chapter: one text page when the chapter has non-empty
/// content, made of `text`, the content's text as the HTML parser reads it
/// (an error when it could not be read); else one image page per image, in
/// order, and none without images.
pub fn chapter_pages(content: &Option<String>, text: Option<String>, images: &Option<Vec<String>>) -> (r: Result<Vec<Page>, Error>)
    ensures
        if content matches Some(c) && c@.len() > 0 {
            match text {
                Some(t) => r matches Ok(ps) && ps@.len() == 1 && (ps@[0].content matches PageContent::Text(x) && x == t),
                None => r matches Err(Error::Invalid(_)),
            }
        } else {
            r matches Ok(ps) && ps@.len() == (match images {
                Some(v) => v@.len(),
                None => 0,
            }) && forall|i: int| 0 <= i < ps@.len() ==> (#[trigger] ps@[i]).content == PageContent::Url(images->Some_0@[i])
        },
{
    let has_text = match content {
        Some(c) => c.as_str().unicode_len() > 0,
        None => false,
    };
    if has_text {
        return match text {
            Some(t) => {
                let mut ps: Vec<Page> = Vec::new();
                ps.push(Page { content: PageContent::Text(t) });
                Ok(ps)
            },
            None => Err(Error::Invalid("Invalid chapter content".to_string())),
        };
    }
    let mut ps: Vec<Page> = Vec::new();
    if let Some(v) = images {
        for i in 0..v.len()
            invariant
                images == Some(*v),
                ps@.len() == i,
                forall|j: int| 0 <= j < i ==> (#[trigger] ps@[j]).content == PageContent::Url(v@[j]),
        {
            ps.push(Page { content: PageContent::Url(v[i].clone()) });
        }
    }
    Ok(ps)
}

/// A link that does not begin with the site's base URL, another host's
/// among them, resolves to no match.
pub proof fn lemma_foreign_link_no_match(base_url: Seq<char>, url: Seq<char>)
    requires
        !(base_url.len() <= url.len() && url.take(base_url.len() as int) == base_url),
    ensures
        link_key(base_url, url) is None,
{
}

/// The key of a series linked from the home page: the link's path on the
/// site, or, without a link, the path the site gives its title.
pub fn home_entry_key(params: &Params, href: Option<String>, title: &str) -> (r: String)
    ensures
        match href {
            Some(h) => r@ == strip_prefix_or_self(h@, params.base_url@),
            None => r@ == "/series/"@ + slug_of(title@),
        },
{
    match href {
        Some(h) => strip_prefix_or_self_of(h.as_str(), params.base_url.as_str()),
        None => {
            let mut k = "/series/".to_string();
            let s = slugify(title);
            push_str(&mut k, s.as_str());
            k
        },
    }
}

} // verus!
