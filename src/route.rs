//! Request routes of the boylove site: one variant per operation, each
//! rendered to its URL by one serializer, with its query parameters in a
//! fixed order.
use crate::encode::{int_text, push_int, push_str, push_uri_component, uri_component};
use crate::error::{quote, quoted, Error};
use crate::signing::{token, token_headers, token_parameter};
use vstd::prelude::*;

verus! {

pub const BASE_URL: &'static str = "https://boylove.cc";

pub const API_URL: &'static str = "https://xxblapingpong.cc";

/// The browser the site's pages are requested as.
pub const USER_AGENT: &'static str = "Mozilla/5.0 (Macintosh; Intel Mac OS X 10_15_7) AppleWebKit/605.1.15 (KHTML, like Gecko) Version/18.5 Safari/605.1.15";

/// The browser the image API is requested as.
pub const API_USER_AGENT: &'static str = "Mozilla/5.0 (iPad; CPU OS 18_2 like Mac OS X) AppleWebKit/605.1.15 (KHTML, like Gecko) Mobile/15E148";

/// The character set the site serves its pages in.
#[derive(Clone, Copy, Debug, PartialEq, Eq, Structural)]
pub enum Charset {
    Simplified,
    Traditional,
}

impl Charset {
    /// The charset the `isTraditionalChinese` setting asks for; an error when
    /// the setting has no value.
    pub fn from_settings(is_traditional_chinese: Option<bool>) -> (r: Result<Charset, Error>)
        ensures
            match is_traditional_chinese {
                Some(t) => r == Ok::<Charset, Error>(
                    if t {
                        Charset::Traditional
                    } else {
                        Charset::Simplified
                    },
                ),
                None => r matches Err(Error::Missing(m)) && m@ == quoted(
                    "Default does not exist for key: "@,
                    "isTraditionalChinese"@,
                ),
            },
    {
        match is_traditional_chinese {
            Some(true) => Ok(Charset::Traditional),
            Some(false) => Ok(Charset::Simplified),
            None => Err(
                Error::Missing(quote("Default does not exist for key: ", "isTraditionalChinese")),
            ),
        }
    }

    pub open spec fn code(self) -> Seq<char> {
        match self {
            Charset::Simplified => "S"@,
            Charset::Traditional => "T"@,
        }
    }
}

/// Order of a browse listing, numbered as the site numbers it.
#[derive(Clone, Copy, Debug, PartialEq, Eq, Structural)]
pub enum Sort {
    Popularity,
    LastUpdated,
}

impl Sort {
    /// The order numbered `index`; out of range, the default order.
    pub fn from_repr(index: i32) -> (r: Sort)
        ensures
            r == (if index == 0 {
                Sort::Popularity
            } else {
                Sort::LastUpdated
            }),
    {
        if index == 0 {
            Sort::Popularity
        } else {
            Sort::LastUpdated
        }
    }

    pub open spec fn code(self) -> Seq<char> {
        match self {
            Sort::Popularity => "0"@,
            Sort::LastUpdated => "1"@,
        }
    }
}

impl Default for Sort {
    fn default() -> (r: Sort)
        ensures
            r == Sort::LastUpdated,
    {
        Sort::LastUpdated
    }
}

/// The 0-based page that the 1-based page `page` stands for on the endpoints
/// that count from zero; pages before the first give the first.
pub open spec fn offset_of(page: i32) -> i32 {
    if page >= 1 {
        (page - 1) as i32
    } else {
        0
    }
}

/// A 0-based page number.
#[derive(Clone, Copy, Debug, PartialEq, Eq, Structural)]
pub struct OffsetPage(pub i32);

impl OffsetPage {
    pub fn new(page: i32) -> (r: OffsetPage)
        ensures
            r.0 == offset_of(page),
    {
        if page >= 1 {
            OffsetPage(page - 1)
        } else {
            OffsetPage(0)
        }
    }
}

/// The tags a browse listing is narrowed to.
#[derive(Clone, Debug, Default)]
pub struct Tags(pub Vec<String>);

/// The tags percent-encoded and joined by `+`.
pub open spec fn joined_tags(tags: Seq<String>) -> Seq<char>
    decreases tags.len(),
{
    if tags.len() == 0 {
        Seq::empty()
    } else if tags.len() == 1 {
        uri_component(tags[0]@)
    } else {
        joined_tags(tags.drop_last()) + "+"@ + uri_component(tags.last()@)
    }
}

/// `0` for no tags, else the tags percent-encoded and joined by `+`.
pub open spec fn tags_text(tags: Seq<String>) -> Seq<char> {
    if tags.len() == 0 {
        "0"@
    } else {
        joined_tags(tags)
    }
}

/// Parameters of a keyword search.
#[derive(Clone, Debug)]
pub struct SearchQuery {
    pub keyword: String,
    pub page: i32,
}

impl SearchQuery {
    pub fn new(keyword: &str, page: i32) -> (r: SearchQuery)
        ensures
            r.keyword@ == keyword@,
            r.page == page,
    {
        SearchQuery { keyword: keyword.to_string(), page }
    }
}

/// Parameters of a daily-update feed.
#[derive(Clone, Debug)]
pub struct DailyUpdateQuery {
    pub day_of_week: String,
    pub page: OffsetPage,
}

impl DailyUpdateQuery {
    pub fn new(day_of_week: &str, page: i32) -> (r: DailyUpdateQuery)
        ensures
            r.day_of_week@ == day_of_week@,
            r.page.0 == offset_of(page),
    {
        DailyUpdateQuery { day_of_week: day_of_week.to_string(), page: OffsetPage::new(page) }
    }
}

/// Parameters of the "you may like" feed.
#[derive(Clone, Copy, Debug)]
pub struct RandomQuery;

impl RandomQuery {
    pub fn new() -> (r: RandomQuery) {
        RandomQuery
    }
}

/// Parameters of a chapter's page list.
#[derive(Clone, Debug)]
pub struct ChapterQuery {
    pub key: String,
}

impl ChapterQuery {
    pub fn new(key: &str) -> (r: ChapterQuery)
        ensures
            r.key@ == key@,
    {
        ChapterQuery { key: key.to_string() }
    }
}

/// A request route of the site.
#[derive(Clone, Debug)]
pub enum Url {
    Home,
    Abs(String),
    ChangeCharset(Charset),
    FiltersPage,
    Filters {
        tags: Tags,
        status: String,
        sort_by: Sort,
        page: i32,
        content_rating: String,
        view_permission: String,
    },
    Search(SearchQuery),
    Manga { key: String },
    ChapterList { manga_key: String },
    Chapter { key: String },
    DailyUpdate(DailyUpdateQuery),
    Listing(String, OffsetPage),
    Random(RandomQuery),
}

pub open spec fn search_path(keyword: Seq<char>, page: i32) -> Seq<char> {
    "/home/api/searchk?keyword="@ + uri_component(keyword) + "&type=1&pageNo="@ + int_text(
        page as int,
    )
}

/// The path and query of a route, after the site's address.
pub open spec fn route_path(u: Url) -> Seq<char> {
    match u {
        Url::Home => "/"@,
        Url::Abs(p) => p@,
        Url::ChangeCharset(c) => "/home/user/to"@ + c.code() + ".html"@,
        Url::FiltersPage => "/home/book/cate.html"@,
        Url::Filters { tags, status, sort_by, page, content_rating, view_permission } =>
            "/home/api/cate/tp/1-"@ + tags_text(tags.0@) + "-"@ + status@ + "-"@ + sort_by.code()
            + "-"@ + int_text(page as int) + "-"@ + content_rating@ + "-1-"@ + view_permission@,
        Url::Search(q) => search_path(q.keyword@, q.page),
        Url::Manga { key } => "/home/book/index/id/"@ + key@,
        Url::ChapterList { manga_key } => "/home/api/getChapterListInChapter/tp/"@ + manga_key@
            + "-0-1-1000"@,
        Url::Chapter { key } => "/home/book/capter/id/"@ + key@,
        Url::DailyUpdate(q) => "/home/Api/getDailyUpdate.html?widx="@ + q.day_of_week@
            + "&limit=18&page="@ + int_text(q.page.0 as int) + "&lastpage=0"@,
        Url::Listing(id, p) => "/home/api/getpage/tp/1-"@ + id@ + "-"@ + int_text(p.0 as int),
        Url::Random(_) => "/home/Api/getCnxh.html?limit=5&type=1"@,
    }
}

/// The full URL of a route.
pub open spec fn render(u: Url) -> Seq<char> {
    BASE_URL@ + route_path(u)
}

fn push_joined_tags(out: &mut String, tags: &Vec<String>)
    ensures
        final(out)@ == old(out)@ + joined_tags(tags@),
{
    let ghost o = out@;
    let mut i: usize = 0;
    while i < tags.len()
        invariant
            i <= tags@.len(),
            out@ == o + joined_tags(tags@.take(i as int)),
        decreases tags@.len() - i,
    {
        let ghost before = out@;
        if i > 0 {
            push_str(out, "+");
        }
        push_uri_component(out, tags[i].as_str());
        proof {
            let t = tags@.take(i + 1);
            assert(t.drop_last() =~= tags@.take(i as int));
            if i == 0 {
                assert(t.len() == 1);
                assert(joined_tags(tags@.take(0)) == Seq::<char>::empty());
                assert(out@ =~= o + joined_tags(t));
            } else {
                assert(out@ =~= o + joined_tags(t));
            }
        }
        i = i + 1;
    }
    assert(tags@.take(tags@.len() as int) =~= tags@);
}

impl Url {
    /// The full URL.
    pub fn to_string(&self) -> (r: String)
        ensures
            r@ == render(*self),
    {
        let mut s = String::new();
        push_str(&mut s, BASE_URL);
        let ghost b = s@;
        match self {
            Url::Home => push_str(&mut s, "/"),
            Url::Abs(p) => push_str(&mut s, p.as_str()),
            Url::ChangeCharset(c) => {
                push_str(&mut s, "/home/user/to");
                match c {
                    Charset::Simplified => push_str(&mut s, "S"),
                    Charset::Traditional => push_str(&mut s, "T"),
                }
                push_str(&mut s, ".html");
            },
            Url::FiltersPage => push_str(&mut s, "/home/book/cate.html"),
            Url::Filters { tags, status, sort_by, page, content_rating, view_permission } => {
                push_str(&mut s, "/home/api/cate/tp/1-");
                if tags.0.len() == 0 {
                    push_str(&mut s, "0");
                } else {
                    push_joined_tags(&mut s, &tags.0);
                }
                push_str(&mut s, "-");
                push_str(&mut s, status.as_str());
                push_str(&mut s, "-");
                match sort_by {
                    Sort::Popularity => push_str(&mut s, "0"),
                    Sort::LastUpdated => push_str(&mut s, "1"),
                }
                push_str(&mut s, "-");
                push_int(&mut s, *page as i64);
                push_str(&mut s, "-");
                push_str(&mut s, content_rating.as_str());
                push_str(&mut s, "-1-");
                push_str(&mut s, view_permission.as_str());
            },
            Url::Search(q) => {
                push_str(&mut s, "/home/api/searchk?keyword=");
                push_uri_component(&mut s, q.keyword.as_str());
                push_str(&mut s, "&type=1&pageNo=");
                push_int(&mut s, q.page as i64);
            },
            Url::Manga { key } => {
                push_str(&mut s, "/home/book/index/id/");
                push_str(&mut s, key.as_str());
            },
            Url::ChapterList { manga_key } => {
                push_str(&mut s, "/home/api/getChapterListInChapter/tp/");
                push_str(&mut s, manga_key.as_str());
                push_str(&mut s, "-0-1-1000");
            },
            Url::Chapter { key } => {
                push_str(&mut s, "/home/book/capter/id/");
                push_str(&mut s, key.as_str());
            },
            Url::DailyUpdate(q) => {
                push_str(&mut s, "/home/Api/getDailyUpdate.html?widx=");
                push_str(&mut s, q.day_of_week.as_str());
                push_str(&mut s, "&limit=18&page=");
                push_int(&mut s, q.page.0 as i64);
                push_str(&mut s, "&lastpage=0");
            },
            Url::Listing(id, p) => {
                push_str(&mut s, "/home/api/getpage/tp/1-");
                push_str(&mut s, id.as_str());
                push_str(&mut s, "-");
                push_int(&mut s, p.0 as i64);
            },
            Url::Random(_) => push_str(&mut s, "/home/Api/getCnxh.html?limit=5&type=1"),
        }
        assert(s@ =~= render(*self));
        s
    }
}

/// The route that switches the site to the charset of the
/// `isTraditionalChinese` setting.
pub fn change_charset(is_traditional_chinese: Option<bool>) -> (r: Result<Url, Error>)
    ensures
        match is_traditional_chinese {
            Some(t) => r matches Ok(u) && u == Url::ChangeCharset(
                if t {
                    Charset::Traditional
                } else {
                    Charset::Simplified
                },
            ),
            None => r matches Err(Error::Missing(_)),
        },
{
    match Charset::from_settings(is_traditional_chinese) {
        Ok(c) => Ok(Url::ChangeCharset(c)),
        Err(e) => Err(e),
    }
}

pub open spec fn daily_update_path(day_of_week: Seq<char>, page: i32) -> Seq<char> {
    "/home/Api/getDailyUpdate.html?widx="@ + day_of_week + "&limit=18&page="@ + int_text(
        offset_of(page) as int,
    ) + "&lastpage=0"@
}

pub open spec fn listing_path(id: Seq<char>, page: i32) -> Seq<char> {
    "/home/api/getpage/tp/1-"@ + id + "-"@ + int_text(offset_of(page) as int)
}

impl Url {
    pub fn manga(key: &str) -> (r: Url)
        ensures
            route_path(r) == "/home/book/index/id/"@ + key@,
    {
        Url::Manga { key: key.to_string() }
    }

    pub fn chapter_list(manga_key: &str) -> (r: Url)
        ensures
            route_path(r) == "/home/api/getChapterListInChapter/tp/"@ + manga_key@ + "-0-1-1000"@,
    {
        Url::ChapterList { manga_key: manga_key.to_string() }
    }

    pub fn chapter(key: &str) -> (r: Url)
        ensures
            route_path(r) == "/home/book/capter/id/"@ + key@,
    {
        Url::Chapter { key: key.to_string() }
    }

    /// The daily-update feed `day_of_week`; the endpoint counts pages from zero.
    pub fn daily_update(day_of_week: &str, page: i32) -> (r: Url)
        ensures
            route_path(r) == daily_update_path(day_of_week@, page),
    {
        Url::DailyUpdate(DailyUpdateQuery::new(day_of_week, page))
    }

    /// The ranking or uncensored listing `listing`; the endpoint counts pages
    /// from zero.
    pub fn listing(listing: &str, page: i32) -> (r: Url)
        ensures
            route_path(r) == listing_path(listing@, page),
    {
        Url::Listing(listing.to_string(), OffsetPage::new(page))
    }

    pub fn random() -> (r: Url)
        ensures
            route_path(r) == "/home/Api/getCnxh.html?limit=5&type=1"@,
    {
        Url::Random(RandomQuery::new())
    }
}

/// A route of the image API.
#[derive(Clone, Debug)]
pub enum Api {
    Chapter(ChapterQuery),
}

pub open spec fn api_render(a: Api) -> Seq<char> {
    match a {
        Api::Chapter(q) => API_URL@ + "/chapter_view_template?id="@ + q.key@
            + "&sw_page=null&mode=vertical&page=0&app_img_shunt=NaN"@,
    }
}

impl Api {
    /// The page list of chapter `key`.
    pub fn chapter(key: &str) -> (r: Api)
        ensures
            r matches Api::Chapter(q) && q.key@ == key@,
    {
        Api::Chapter(ChapterQuery::new(key))
    }

    /// The full URL.
    pub fn to_string(&self) -> (r: String)
        ensures
            r@ == api_render(*self),
    {
        let mut s = String::new();
        push_str(&mut s, API_URL);
        match self {
            Api::Chapter(q) => {
                push_str(&mut s, "/chapter_view_template?id=");
                push_str(&mut s, q.key.as_str());
                push_str(&mut s, "&sw_page=null&mode=vertical&page=0&app_img_shunt=NaN");
            },
        }
        assert(s@ =~= api_render(*self));
        s
    }

    /// The `(Tokenparam, Token)` header pair of a request made at `now`.
    pub fn signature(now: i64) -> (r: (String, String))
        ensures
            r.0@ == token_parameter(now),
            r.1@ == token(now),
    {
        token_headers(now)
    }
}

/// Pages are numbered from 1 at the interface. The daily-update and listing
/// endpoints count from zero and are sent `page - 1`, never below zero; the
/// search and browse endpoints count from one and are sent the page as it is.
/// So page 1 asks every endpoint for its first page.
pub proof fn lemma_first_page(day_of_week: Seq<char>, id: Seq<char>, keyword: Seq<char>, page: i32)
    ensures
        offset_of(page) == (if page >= 1 { page - 1 } else { 0 }),
        daily_update_path(day_of_week, 1) == "/home/Api/getDailyUpdate.html?widx="@ + day_of_week
            + "&limit=18&page=0&lastpage=0"@,
        listing_path(id, 1) == "/home/api/getpage/tp/1-"@ + id + "-0"@,
        search_path(keyword, 1) == "/home/api/searchk?keyword="@ + uri_component(keyword)
            + "&type=1&pageNo=1"@,
        search_path(keyword, page) == "/home/api/searchk?keyword="@ + uri_component(keyword)
            + "&type=1&pageNo="@ + int_text(page as int),
{
    reveal_strlit("0");
    reveal_strlit("1");
    reveal_strlit("-0");
    reveal_strlit("-");
    reveal_strlit("&type=1&pageNo=");
    reveal_strlit("&type=1&pageNo=1");
    reveal_strlit("&limit=18&page=");
    reveal_strlit("&lastpage=0");
    reveal_strlit("&limit=18&page=0&lastpage=0");
    assert(int_text(0) =~= "0"@);
    assert(int_text(1) =~= "1"@);
    assert("-"@ + "0"@ =~= "-0"@);
    assert(daily_update_path(day_of_week, 1) =~= "/home/Api/getDailyUpdate.html?widx="@
        + day_of_week + "&limit=18&page=0&lastpage=0"@);
    assert(listing_path(id, 1) =~= "/home/api/getpage/tp/1-"@ + id + "-0"@);
    assert(search_path(keyword, 1) =~= "/home/api/searchk?keyword="@ + uri_component(keyword)
        + "&type=1&pageNo=1"@);
}

} // verus!
