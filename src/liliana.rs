//! The liliana site template: shared logic of the sites built on it, each
//! configured by its base URL.
use crate::encode::{int_text, push_int, push_str, push_uri_component, uri_component};
use crate::error::Error;
use crate::filters::FilterValue;
use crate::models::{
    opt_view, Chapter, DeepLinkResult, Manga, MangaStatus, Page, PageContent,
};
use crate::numeral::{all_digits, digits_to_u64, digits_value};
use crate::numeral::{decimal_literal, decimal_literal_of, is_ascii_digit, is_digit, Decimal};
use crate::iken::{join, joined};
use crate::models::views;
use crate::query::{pair_views, push_pair, push_query, query_text};
use crate::text::{
    chars_of, find, find_chars, slice_chars, str_eq, string_of, trim, trim_chars,
};
use vstd::prelude::*;
use vstd::string::StrSliceExecFns;

verus! {

/// A site built on the template.
#[derive(Clone, Debug)]
pub struct Params {
    pub base_url: String,
    pub uses_post_search: bool,
}

pub open spec fn is_host_delimiter(c: char) -> bool {
    c == '/' || c == ':' || c == '?' || c == '#'
}

/// Index of the first host delimiter in `s` from `k` on, or the length.
pub open spec fn host_end(s: Seq<char>, k: int) -> int
    decreases s.len() - k,
{
    if k < 0 || k >= s.len() {
        s.len() as int
    } else if is_host_delimiter(s[k]) {
        k
    } else {
        host_end(s, k + 1)
    }
}

/// The host of a URL: what follows `://` up to the first `/`, `:`, `?` or
/// `#`; a text without `://` is returned whole.
pub open spec fn host_of(url: Seq<char>) -> Seq<char> {
    match find(url, "://"@) {
        Some(i) => {
            let after = url.skip(i + 3);
            after.take(host_end(after, 0))
        },
        None => url,
    }
}

proof fn lemma_host_end_bounds(s: Seq<char>, k: int)
    requires
        0 <= k <= s.len(),
    ensures
        k <= host_end(s, k) <= s.len(),
    decreases s.len() - k,
{
    if k < s.len() && !is_host_delimiter(s[k]) {
        lemma_host_end_bounds(s, k + 1);
    }
}

/// The host of a URL.
pub fn url_host(url: &str) -> (r: &str)
    ensures
        r@ == host_of(url@),
{
    let v = chars_of(url);
    let sep = chars_of("://");
    proof {
        reveal_strlit("://");
    }
    match find_chars(&v, &sep) {
        None => url,
        Some(i) => {
            let b = if sep.len() <= v.len() - i {
                i + sep.len()
            } else {
                v.len()
            };
            let mut e = b;
            let ghost after = v@.skip(b as int);
            proof {
                lemma_host_end_bounds(after, 0);
            }
            while e < v.len() && !(v[e] == '/' || v[e] == ':' || v[e] == '?' || v[e] == '#')
                invariant
                    b <= e <= v@.len(),
                    after == v@.skip(b as int),
                    host_end(after, 0) == host_end(after, e - b),
                decreases v@.len() - e,
            {
                assert(after[e - b] == v@[e as int]);
                e = e + 1;
            }
            if e < v.len() {
                assert(after[e - b] == v@[e as int]);
            }
            assert(after.take(e - b) =~= v@.subrange(b as int, e as int));
            url.substring_char(b, e)
        },
    }
}

/// The text between the first `start` and the first `end` after it.
pub open spec fn between(s: Seq<char>, start: Seq<char>, end: Seq<char>) -> Option<Seq<char>> {
    match find(s, start) {
        Some(i) => {
            let after = s.skip(i + start.len());
            match find(after, end) {
                Some(j) => Some(after.take(j)),
                None => None,
            }
        },
        None => None,
    }
}

/// The text between the first `start` and the first `end` after it.
pub fn extract_between<'a>(s: &'a str, start: &str, end: &str) -> (r: Option<&'a str>)
    ensures
        match r {
            Some(t) => between(s@, start@, end@) == Some(t@),
            None => between(s@, start@, end@) is None,
        },
{
    let v = chars_of(s);
    let a = chars_of(start);
    let z = chars_of(end);
    match find_chars(&v, &a) {
        Some(i) => {
            let b = if a.len() <= v.len() - i {
                i + a.len()
            } else {
                v.len()
            };
            let after = slice_chars(&v, b, v.len());
            assert(after@ =~= v@.skip(i + a@.len()));
            match find_chars(&after, &z) {
                Some(j) => {
                    assert(after@.take(j as int) =~= v@.subrange(b as int, b + j));
                    Some(s.substring_char(b, b + j))
                },
                None => None,
            }
        },
        None => None,
    }
}

/// Index of the first digit of `s` from `k` on.
pub open spec fn first_digit(s: Seq<char>, k: int) -> Option<int>
    decreases s.len() - k,
{
    if k < 0 || k >= s.len() {
        None
    } else if is_digit(s[k]) {
        Some(k)
    } else {
        first_digit(s, k + 1)
    }
}

/// End of the run of digits of `s` from `k` on.
pub open spec fn digits_end(s: Seq<char>, k: int) -> int
    decreases s.len() - k,
{
    if 0 <= k < s.len() && is_digit(s[k]) {
        digits_end(s, k + 1)
    } else {
        k
    }
}

/// The first number written in `s`: its first run of digits, with a dot and
/// the digits after it when a dot follows.
pub open spec fn first_number(s: Seq<char>) -> Option<Decimal> {
    match first_digit(s, 0) {
        Some(d) => {
            let e = digits_end(s, d);
            let f = if e < s.len() && s[e] == '.' {
                digits_end(s, e + 1)
            } else {
                e
            };
            decimal_literal(s.subrange(d, f))
        },
        None => None,
    }
}

fn digits_end_of(v: &[char], k: usize) -> (r: usize)
    requires
        k <= v@.len(),
    ensures
        r == digits_end(v@, k as int),
        k <= r <= v@.len(),
{
    let mut j = k;
    while j < v.len() && is_ascii_digit(v[j])
        invariant
            k <= j <= v@.len(),
            digits_end(v@, k as int) == digits_end(v@, j as int),
        decreases v@.len() - j,
    {
        j = j + 1;
    }
    j
}

/// The first number written in `s`.
pub fn find_first_number(s: &str) -> (r: Option<Decimal>)
    ensures
        r == first_number(s@),
{
    let v = chars_of(s);
    let mut d: usize = 0;
    while d < v.len() && !is_ascii_digit(v[d])
        invariant
            d <= v@.len(),
            first_digit(v@, 0) == first_digit(v@, d as int),
        decreases v@.len() - d,
    {
        d = d + 1;
    }
    if d == v.len() {
        return None;
    }
    let e = digits_end_of(&v, d);
    let f = if e < v.len() && v[e] == '.' {
        digits_end_of(&v, e + 1)
    } else {
        e
    };
    decimal_literal_of(&slice_chars(&v, d, f))
}

/// The order a sort index names; out of range, the site's default.
pub open spec fn sort_name(index: i32) -> Seq<char> {
    if index == 1 { "latest-updated"@ } else if index == 2 { "views"@ }
    else if index == 3 { "views_month"@ } else if index == 4 { "views_week"@ }
    else if index == 5 { "views_day"@ } else if index == 6 { "score"@ }
    else if index == 7 { "az"@ } else if index == 8 { "za"@ }
    else if index == 9 { "chapters"@ } else if index == 10 { "new"@ }
    else if index == 11 { "old"@ } else { "default"@ }
}

pub fn sort_name_of(index: i32) -> (r: &'static str)
    ensures
        r@ == sort_name(index),
{
    if index == 1 { "latest-updated" } else if index == 2 { "views" }
    else if index == 3 { "views_month" } else if index == 4 { "views_week" }
    else if index == 5 { "views_day" } else if index == 6 { "score" }
    else if index == 7 { "az" } else if index == 8 { "za" }
    else if index == 9 { "chapters" } else if index == 10 { "new" }
    else if index == 11 { "old" } else { "default" }
}

/// What `str::to_lowercase` gives for a text.
pub uninterp spec fn lowercase_of(s: Seq<char>) -> Seq<char>;

/// Relies on `str::to_lowercase`: the result depends on the text alone.
#[verifier::external_body]
pub(crate) fn to_lowercase(s: &str) -> (r: String)
    ensures
        r@ == lowercase_of(s@),
{
    s.to_lowercase()
}

/// The serial status a lower-cased status label names, in the languages the
/// sites use.
pub open spec fn status_of_label(l: Seq<char>) -> MangaStatus {
    if l == "ongoing"@ || l == "đang tiến hành"@ || l == "進行中"@ {
        MangaStatus::Ongoing
    } else if l == "completed"@ || l == "hoàn thành"@ || l == "完了"@ {
        MangaStatus::Completed
    } else if l == "on-hold"@ || l == "tạm ngưng"@ || l == "保留"@ {
        MangaStatus::Hiatus
    } else if l == "canceled"@ || l == "đã huỷ"@ || l == "キャンセル"@ {
        MangaStatus::Cancelled
    } else {
        MangaStatus::Unknown
    }
}

/// The serial status of a lower-cased status label.
pub fn status_from_lowercase(l: &str) -> (r: MangaStatus)
    ensures
        r == status_of_label(l@),
{
    if str_eq(l, "ongoing") || str_eq(l, "đang tiến hành") || str_eq(l, "進行中") {
        MangaStatus::Ongoing
    } else if str_eq(l, "completed") || str_eq(l, "hoàn thành") || str_eq(l, "完了") {
        MangaStatus::Completed
    } else if str_eq(l, "on-hold") || str_eq(l, "tạm ngưng") || str_eq(l, "保留") {
        MangaStatus::Hiatus
    } else if str_eq(l, "canceled") || str_eq(l, "đã huỷ") || str_eq(l, "キャンセル") {
        MangaStatus::Cancelled
    } else {
        MangaStatus::Unknown
    }
}

/// The serial status of a status label as the page shows it; unknown when
/// the page shows none.
pub fn status_from_label(label: Option<String>) -> (r: MangaStatus)
    ensures
        match label {
            Some(t) => r == status_of_label(lowercase_of(t@)),
            None => r == MangaStatus::Unknown,
        },
{
    match label {
        Some(t) => status_from_lowercase(to_lowercase(t.as_str()).as_str()),
        None => MangaStatus::Unknown,
    }
}

/// The authors a page's author label gives: none while the site shows
/// "updating".
pub fn authors_from_label(label: Option<String>) -> (r: Option<Vec<String>>)
    ensures
        match label {
            Some(t) => if t@ == "updating"@ {
                r is None
            } else {
                r matches Some(v) && v@.len() == 1 && v@[0] == t
            },
            None => r is None,
        },
{
    match label {
        Some(t) => if str_eq(t.as_str(), "updating") {
            None
        } else {
            let mut v: Vec<String> = Vec::new();
            v.push(t);
            Some(v)
        },
        None => None,
    }
}

/// Index of the first `-` in `s`.
pub open spec fn first_dash(s: Seq<char>) -> Option<int> {
    find(s, "-"@)
}

/// A chapter's title from its link text: what follows the first `-`,
/// trimmed; none without a `-`.
pub open spec fn chapter_title_of(text: Seq<char>) -> Option<Seq<char>> {
    match first_dash(text) {
        Some(i) => Some(trim(text.skip(i + 1))),
        None => None,
    }
}

pub fn chapter_title(text: &str) -> (r: Option<String>)
    ensures
        opt_view(r) == chapter_title_of(text@),
{
    let v = chars_of(text);
    let dash = chars_of("-");
    match find_chars(&v, &dash) {
        Some(i) => {
            proof {
                reveal_strlit("-");
            }
            assert(i < v.len());
            let rest = slice_chars(&v, i + 1, v.len());
            assert(rest@ =~= v@.skip(i + 1));
            Some(string_of(&trim_chars(&rest)))
        },
        None => None,
    }
}

/// `s` without the prefix `p` when it has it, else `s` itself.
pub open spec fn strip_prefix_or_self(s: Seq<char>, p: Seq<char>) -> Seq<char> {
    if p.len() <= s.len() && s.take(p.len() as int) == p {
        s.skip(p.len() as int)
    } else {
        s
    }
}

pub fn strip_prefix_or_self_of(s: &str, p: &str) -> (r: String)
    ensures
        r@ == strip_prefix_or_self(s@, p@),
{
    let v = chars_of(s);
    let w = chars_of(p);
    if crate::text::matches_at(&v, 0, &w) {
        assert(v@.subrange(0, w@.len() as int) =~= v@.take(w@.len() as int));
        let rest = slice_chars(&v, w.len(), v.len());
        assert(rest@ =~= v@.skip(w@.len() as int));
        string_of(&rest)
    } else {
        proof {
            if w@.len() <= v@.len() && v@.take(w@.len() as int) == w@ {
                assert(v@.subrange(0, w@.len() as int) =~= v@.take(w@.len() as int));
            }
        }
        s.to_string()
    }
}

/// A series as the search endpoint lists it.
#[derive(Clone, Debug)]
pub struct LilianaManga {
    pub cover: Option<String>,
    pub name: String,
    pub url: String,
}

impl LilianaManga {
    /// The series: keyed by its path on the site, its cover made absolute.
    pub fn into_manga(&self, base_url: &str) -> (r: Manga)
        ensures
            r.key@ == strip_prefix_or_self(self.url@, base_url@),
            r.title@ == self.name@,
            opt_view(r.cover) == (match self.cover {
                Some(c) => Some(base_url@ + c@),
                None => None,
            }),
    {
        let key = strip_prefix_or_self_of(self.url.as_str(), base_url);
        let cover = match &self.cover {
            Some(c) => {
                let mut s = base_url.to_string();
                push_str(&mut s, c.as_str());
                Some(s)
            },
            None => None,
        };
        let mut m = Manga::new(key, self.name.clone());
        m.cover = cover;
        m
    }
}

/// How many `/` a path holds.
pub open spec fn slash_count(s: Seq<char>) -> nat
    decreases s.len(),
{
    if s.len() == 0 {
        0
    } else {
        slash_count(s.drop_last()) + if s.last() == '/' {
            1nat
        } else {
            0nat
        }
    }
}

fn slash_count_of(v: &[char]) -> (r: usize)
    ensures
        r == slash_count(v@),
{
    let mut n: usize = 0;
    for i in 0..v.len()
        invariant
            n == slash_count(v@.take(i as int)),
            n <= i,
    {
        assert(v@.take(i + 1).drop_last() =~= v@.take(i as int));
        if v[i] == '/' {
            n = n + 1;
        }
    }
    assert(v@.take(v@.len() as int) =~= v@);
    n
}

/// What a link on the site resolves to: a series under `/manga/<slug>`, or a
/// chapter one level below it; no match for anything else, other hosts
/// included.
pub open spec fn link_of(base_url: Seq<char>, url: Seq<char>) -> Option<(Seq<char>, Option<Seq<char>>)> {
    if !(base_url.len() <= url.len() && url.take(base_url.len() as int) == base_url) {
        None
    } else {
        let path = url.skip(base_url.len() as int);
        if !("/manga/"@.len() <= path.len() && path.take("/manga/"@.len() as int) == "/manga/"@) {
            None
        } else {
            let n = slash_count(path);
            if n > 3 || (n == 3 && path.last() != '/') {
                match crate::boylove::last_slash(path) {
                    Some(i) => Some((path.take(i), Some(path))),
                    None => Some((Seq::empty(), Some(path))),
                }
            } else {
                Some((path, None))
            }
        }
    }
}

/// The `(series key, chapter key)` a deep link names.
pub open spec fn link_view(r: Option<DeepLinkResult>) -> Option<(Seq<char>, Option<Seq<char>>)> {
    match r {
        Some(DeepLinkResult::Manga { key }) => Some((key@, None)),
        Some(DeepLinkResult::Chapter { manga_key, key }) => Some((manga_key@, Some(key@))),
        _ => None,
    }
}

/// Resolves a link on the site to a series or chapter.
pub fn handle_deep_link(params: &Params, url: &str) -> (r: Option<DeepLinkResult>)
    ensures
        link_view(r) == link_of(params.base_url@, url@),
        r matches Some(DeepLinkResult::Listing(_)) ==> false,
{
    let v = chars_of(url);
    let b = chars_of(params.base_url.as_str());
    if !crate::text::matches_at(&v, 0, &b) {
        proof {
            if b@.len() <= v@.len() && v@.take(b@.len() as int) == b@ {
                assert(v@.subrange(0, b@.len() as int) =~= v@.take(b@.len() as int));
            }
        }
        return None;
    }
    assert(v@.subrange(0, b@.len() as int) =~= v@.take(b@.len() as int));
    let path = slice_chars(&v, b.len(), v.len());
    assert(path@ =~= v@.skip(b@.len() as int));
    let m = chars_of("/manga/");
    if !crate::text::matches_at(&path, 0, &m) {
        proof {
            if m@.len() <= path@.len() && path@.take(m@.len() as int) == m@ {
                assert(path@.subrange(0, m@.len() as int) =~= path@.take(m@.len() as int));
            }
        }
        return None;
    }
    assert(path@.subrange(0, m@.len() as int) =~= path@.take(m@.len() as int));
    let n = slash_count_of(&path);
    let whole = string_of(&path);
    if n > 3 || (n == 3 && path.len() > 0 && path[path.len() - 1] != '/') {
        let manga_key = match crate::boylove::last_slash_of(&path) {
            Some(i) => string_of(&slice_chars(&path, 0, i)),
            None => String::new(),
        };
        proof {
            match crate::boylove::last_slash(path@) {
                Some(i) => assert(path@.subrange(0, i) =~= path@.take(i)),
                None => {},
            }
        }
        Some(DeepLinkResult::Chapter { manga_key, key: whole })
    } else {
        proof {
            if n == 3 && path@.len() == 0 {
                assert(slash_count(path@) == 0);
            }
        }
        Some(DeepLinkResult::Manga { key: whole })
    }
}

/// The browse parameters the filters give: the sort order by name, each
/// select as it is, included and excluded genres when there are any.
pub open spec fn browse_pairs(fs: Seq<FilterValue>) -> Seq<(Seq<char>, Seq<char>)>
    decreases fs.len(),
{
    if fs.len() == 0 {
        Seq::empty()
    } else {
        let rest = browse_pairs(fs.drop_last());
        match fs.last() {
            FilterValue::Sort { id, index, .. } => rest.push((id@, sort_name(index))),
            FilterValue::Select { id, value } => rest.push((id@, value@)),
            FilterValue::MultiSelect { included, excluded, .. } => {
                let with_included = if included@.len() > 0 {
                    rest.push(("genres"@, joined(views(included@), ',')))
                } else {
                    rest
                };
                if excluded@.len() > 0 {
                    with_included.push(("notGenres"@, joined(views(excluded@), ',')))
                } else {
                    with_included
                }
            },
            _ => rest,
        }
    }
}

/// A search request: a form posted to the search endpoint, or a page to get.
#[derive(Clone, Debug)]
pub enum SearchRequest {
    Post { url: String, body: String },
    Get { url: String },
}

/// The search request for a query or, without one, for the filters: sites
/// that search by form post the query; others get the search page, the
/// query percent-encoded; the filters are not read when there is a query;
/// browsing gets the filter page, its parameters after a `?`
/// when there are any.
pub open spec fn search_request_of(
    base: Seq<char>,
    uses_post_search: bool,
    query: Option<Seq<char>>,
    page: i32,
    fs: Seq<FilterValue>,
) -> (bool, Seq<char>, Seq<char>) {
    match query {
        Some(q) => if uses_post_search {
            (true, base + "/ajax/search"@, "search="@ + uri_component(q))
        } else {
            (
                false,
                base + "/search/"@ + int_text(page as int) + "/?keyword="@ + uri_component(q),
                Seq::empty(),
            )
        },
        None => {
            let ps = browse_pairs(fs);
            (
                false,
                base + "/filter/"@ + int_text(page as int) + "/"@ + (if ps.len() == 0 {
                    Seq::empty()
                } else {
                    "?"@
                }) + query_text(ps),
                Seq::empty(),
            )
        },
    }
}

pub open spec fn request_view(r: SearchRequest) -> (bool, Seq<char>, Seq<char>) {
    match r {
        SearchRequest::Post { url, body } => (true, url@, body@),
        SearchRequest::Get { url } => (false, url@, Seq::empty()),
    }
}

pub fn search_request(params: &Params, query: Option<&str>, page: i32, filters: &Vec<FilterValue>) -> (r: SearchRequest)
    ensures
        request_view(r) == search_request_of(
            params.base_url@,
            params.uses_post_search,
            crate::filters::opt_str_view(query),
            page,
            filters@,
        ),
{
    let mut url = params.base_url.clone();
    if let Some(q) = query {
        if params.uses_post_search {
            push_str(&mut url, "/ajax/search");
            let mut body = "search=".to_string();
            push_uri_component(&mut body, q);
            return SearchRequest::Post { url, body };
        }
        push_str(&mut url, "/search/");
        push_int(&mut url, page as i64);
        push_str(&mut url, "/?keyword=");
        push_uri_component(&mut url, q);
        return SearchRequest::Get { url };
    }
    let mut ps: Vec<(String, String)> = Vec::new();
    assert(filters@.take(0) =~= Seq::<FilterValue>::empty());
    assert(pair_views(ps@) =~= browse_pairs(filters@.take(0)));
    for i in 0..filters.len()
        invariant
            pair_views(ps@) == browse_pairs(filters@.take(i as int)),
    {
        assert(filters@.take(i + 1).drop_last() =~= filters@.take(i as int));
        assert(filters@.take(i + 1).last() == filters@[i as int]);
        match &filters[i] {
            FilterValue::Sort { id, index, .. } => {
                push_pair(&mut ps, id.as_str(), sort_name_of(*index));
            },
            FilterValue::Select { id, value } => {
                push_pair(&mut ps, id.as_str(), value.as_str());
            },
            FilterValue::MultiSelect { included, excluded, .. } => {
                if included.len() > 0 {
                    let g = join(included, ',');
                    push_pair(&mut ps, "genres", g.as_str());
                }
                if excluded.len() > 0 {
                    let g = join(excluded, ',');
                    push_pair(&mut ps, "notGenres", g.as_str());
                }
            },
            _ => {},
        }
    }
    assert(filters@.take(filters@.len() as int) =~= filters@);
    push_str(&mut url, "/filter/");
    push_int(&mut url, page as i64);
    push_str(&mut url, "/");
    if ps.len() > 0 {
        push_str(&mut url, "?");
    }
    let ghost before = url@;
    push_query(&mut url, &ps);
    proof {
        if ps@.len() == 0 {
            assert(before + Seq::<char>::empty() =~= before);
        }
    }
    assert(url@ =~= search_request_of(
        params.base_url@,
        params.uses_post_search,
        crate::filters::opt_str_view(query),
        page,
        filters@,
    ).1);
    SearchRequest::Get { url }
}

/// A free-text query takes precedence over every filter: with a query, the
/// request is the same whatever the filters are, and the query is
/// percent-encoded.
pub proof fn lemma_query_takes_precedence(
    base: Seq<char>,
    uses_post_search: bool,
    query: Seq<char>,
    page: i32,
    fs: Seq<FilterValue>,
    gs: Seq<FilterValue>,
)
    ensures
        search_request_of(base, uses_post_search, Some(query), page, fs) == search_request_of(
            base,
            uses_post_search,
            Some(query),
            page,
            gs,
        ),
        !uses_post_search ==> search_request_of(base, uses_post_search, Some(query), page, fs).1
            == base + "/search/"@ + int_text(page as int) + "/?keyword="@ + uri_component(query),
{
}

/// The page of a listing.
pub fn listing_url(params: &Params, listing_id: &str, page: i32) -> (r: String)
    ensures
        r@ == params.base_url@ + "/"@ + listing_id@ + "/"@ + int_text(page as int) + "/"@,
{
    let mut url = params.base_url.clone();
    push_str(&mut url, "/");
    push_str(&mut url, listing_id);
    push_str(&mut url, "/");
    push_int(&mut url, page as i64);
    push_str(&mut url, "/");
    url
}

/// The page of a series or chapter, by its key: its path on the site.
pub fn page_url(params: &Params, key: &str) -> (r: String)
    ensures
        r@ == params.base_url@ + key@,
{
    let mut url = params.base_url.clone();
    push_str(&mut url, key);
    url
}

/// The first script that mentions the chapter id, from index `k` on.
pub open spec fn chapter_script(scripts: Seq<Option<String>>, k: int) -> Option<Seq<char>>
    decreases scripts.len() - k,
{
    if k < 0 || k >= scripts.len() {
        None
    } else if scripts[k] matches Some(t) && find(t@, "CHAPTER_ID"@) is Some {
        Some(scripts[k]->Some_0@)
    } else {
        chapter_script(scripts, k + 1)
    }
}

/// The chapter id a chapter page declares in the first script that mentions
/// it.
pub open spec fn chapter_id_of(scripts: Seq<Option<String>>) -> Option<Seq<char>> {
    match chapter_script(scripts, 0) {
        Some(t) => between(t, "const CHAPTER_ID = "@, ";"@),
        None => None,
    }
}

/// The chapter id of a chapter page, from the text of its inline scripts;
/// an error when no script declares it.
pub fn chapter_id(scripts: &Vec<Option<String>>) -> (r: Result<String, Error>)
    ensures
        match chapter_id_of(scripts@) {
            Some(id) => r matches Ok(s) && s@ == id,
            None => r matches Err(Error::Missing(_)),
        },
{
    let marker = chars_of("CHAPTER_ID");
    let mut k: usize = 0;
    while k < scripts.len()
        invariant
            k <= scripts@.len(),
            marker@ == "CHAPTER_ID"@,
            chapter_script(scripts@, 0) == chapter_script(scripts@, k as int),
        decreases scripts@.len() - k,
    {
        if let Some(t) = &scripts[k] {
            if find_chars(&chars_of(t.as_str()), &marker).is_some() {
                return match extract_between(t.as_str(), "const CHAPTER_ID = ", ";") {
                    Some(id) => Ok(id.to_string()),
                    None => Err(Error::Missing("Failed to get chapter id".to_string())),
                };
            }
        }
        k = k + 1;
    }
    Err(Error::Missing("Failed to get chapter id".to_string()))
}

/// The image-list endpoint of a chapter.
pub fn image_list_url(params: &Params, chapter_id: &str) -> (r: String)
    ensures
        r@ == params.base_url@ + "/ajax/image/list/chap/"@ + chapter_id@,
{
    let mut url = params.base_url.clone();
    push_str(&mut url, "/ajax/image/list/chap/");
    push_str(&mut url, chapter_id);
    url
}

/// The image list's status: a failure carries the site's message.
pub fn check_image_list(status: bool, msg: Option<String>) -> (r: Result<(), Error>)
    ensures
        status ==> r is Ok,
        !status ==> (r matches Err(Error::Upstream(m)) && m@ == (match msg {
            Some(m) => m@,
            None => Seq::<char>::empty(),
        })),
{
    if status {
        Ok(())
    } else {
        match msg {
            Some(m) => Err(Error::Upstream(m)),
            None => Err(Error::Upstream(String::new())),
        }
    }
}

/// `t` with `x` inserted after every item whose index is not greater.
pub open spec fn insert_by_index(t: Seq<(i32, String)>, x: (i32, String)) -> Seq<(i32, String)>
    decreases t.len(),
{
    if t.len() == 0 {
        seq![x]
    } else if t.last().0 <= x.0 {
        t.push(x)
    } else {
        insert_by_index(t.drop_last(), x).push(t.last())
    }
}

/// The items ordered by index, items of equal index kept in their order.
pub open spec fn sorted_by_index(s: Seq<(i32, String)>) -> Seq<(i32, String)>
    decreases s.len(),
{
    if s.len() == 0 {
        Seq::empty()
    } else {
        insert_by_index(sorted_by_index(s.drop_last()), s.last())
    }
}

fn insert_sorted(t: &mut Vec<(i32, String)>, x: (i32, String))
    ensures
        final(t)@ == insert_by_index(old(t)@, x),
{
    let ghost t0 = t@;
    let mut j = t.len();
    assert(t0.take(j as int) =~= t0);
    assert(t0.skip(j as int) =~= Seq::<(i32, String)>::empty());
    assert(insert_by_index(t0, x) =~= insert_by_index(t0.take(j as int), x) + t0.skip(j as int));
    while j > 0 && t[j - 1].0 > x.0
        invariant
            t@ == t0,
            j <= t0.len(),
            insert_by_index(t0, x) == insert_by_index(t0.take(j as int), x) + t0.skip(j as int),
        decreases j,
    {
        assert(t0.take(j as int).drop_last() =~= t0.take(j - 1));
        assert(t0.take(j as int).last() == t0[j - 1]);
        assert(t0.skip(j - 1) =~= seq![t0[j - 1]] + t0.skip(j as int));
        assert(insert_by_index(t0.take(j - 1), x).push(t0[j - 1]) + t0.skip(j as int)
            =~= insert_by_index(t0.take(j - 1), x) + t0.skip(j - 1));
        j = j - 1;
    }
    proof {
        if j > 0 {
            assert(t0.take(j as int).last() == t0[j - 1]);
            assert(insert_by_index(t0.take(j as int), x) == t0.take(j as int).push(x));
        } else {
            assert(t0.take(0) =~= Seq::<(i32, String)>::empty());
        }
    }
    t.insert(j, x);
    assert(t@ =~= t0.take(j as int).push(x) + t0.skip(j as int));
}

/// The pages of a chapter whose images carry an index, ordered by it.
pub fn pages_by_index(indexed: Vec<(i32, String)>) -> (r: Vec<Page>)
    ensures
        r@.len() == indexed@.len(),
        forall|i: int|
            0 <= i < r@.len() ==> (#[trigger] r@[i]).content == PageContent::Url(
                sorted_by_index(indexed@)[i].1,
            ),
{
    let ghost all = indexed@;
    let mut sorted: Vec<(i32, String)> = Vec::new();
    let mut rest = indexed;
    assert(all.take(0) =~= Seq::<(i32, String)>::empty());
    assert(all.skip(0) =~= all);
    while rest.len() > 0
        invariant
            rest@.len() <= all.len(),
            rest@ == all.skip(all.len() - rest@.len()),
            sorted@ == sorted_by_index(all.take(all.len() - rest@.len())),
        decreases rest@.len(),
    {
        let ghost i = all.len() - rest@.len();
        let x = rest.remove(0);
        assert(x == all[i]);
        assert(rest@ =~= all.skip(i + 1));
        assert(all.take(i + 1).drop_last() =~= all.take(i));
        insert_sorted(&mut sorted, x);
    }
    assert(all.take(all.len() as int) =~= all);
    proof {
        lemma_sorted_len(all);
    }
    let mut r: Vec<Page> = Vec::new();
    for i in 0..sorted.len()
        invariant
            sorted@ == sorted_by_index(all),
            r@.len() == i,
            forall|j: int| 0 <= j < i ==> (#[trigger] r@[j]).content == PageContent::Url(sorted@[j].1),
    {
        r.push(Page { content: PageContent::Url(sorted[i].1.clone()) });
    }
    r
}

proof fn lemma_insert_len(t: Seq<(i32, String)>, x: (i32, String))
    ensures
        insert_by_index(t, x).len() == t.len() + 1,
    decreases t.len(),
{
    if t.len() > 0 && t.last().0 > x.0 {
        lemma_insert_len(t.drop_last(), x);
    }
}

proof fn lemma_sorted_len(s: Seq<(i32, String)>)
    ensures
        sorted_by_index(s).len() == s.len(),
    decreases s.len(),
{
    if s.len() > 0 {
        lemma_sorted_len(s.drop_last());
        lemma_insert_len(sorted_by_index(s.drop_last()), s.last());
    }
}

/// The `Referer` header of the site's requests: its base URL and a slash.
pub fn referer(base_url: &str) -> (r: String)
    ensures
        r@ == base_url@ + "/"@,
{
    let mut r = base_url.to_string();
    push_str(&mut r, "/");
    r
}

/// The integer a text writes: an optional sign and at least one digit, when
/// it fits in an `i64`, as `str::parse::<i64>` reads it.
pub open spec fn integer_of(t: Seq<char>) -> Option<i64> {
    let neg = t.len() > 0 && t[0] == '-';
    let d = if t.len() > 0 && (t[0] == '-' || t[0] == '+') {
        t.drop_first()
    } else {
        t
    };
    if d.len() == 0 || !all_digits(d) {
        None
    } else if neg && digits_value(d) <= 9223372036854775808 {
        Some((-(digits_value(d) as int)) as i64)
    } else if !neg && digits_value(d) <= i64::MAX {
        Some(digits_value(d) as i64)
    } else {
        None
    }
}

pub fn parse_integer(t: &str) -> (r: Option<i64>)
    ensures
        r == integer_of(t@),
{
    let v = chars_of(t);
    let neg = v.len() > 0 && v[0] == '-';
    let signed = v.len() > 0 && (v[0] == '-' || v[0] == '+');
    let d = if signed {
        let x = slice_chars(&v, 1, v.len());
        assert(x@ =~= v@.drop_first());
        x
    } else {
        let x = slice_chars(&v, 0, v.len());
        assert(x@ =~= v@);
        x
    };
    if d.len() == 0 {
        return None;
    }
    let mut k: usize = 0;
    while k < d.len()
        invariant
            k <= d@.len(),
            d@ == (if t@.len() > 0 && (t@[0] == '-' || t@[0] == '+') {
                t@.drop_first()
            } else {
                t@
            }),
            forall|j: int| 0 <= j < k ==> is_digit(#[trigger] d@[j]),
        decreases d@.len() - k,
    {
        if !is_ascii_digit(d[k]) {
            assert(!is_digit(d@[k as int]));
            return None;
        }
        k = k + 1;
    }
    match digits_to_u64(&d) {
        Some(n) => if neg {
            if n <= 9223372036854775808u64 {
                if n == 9223372036854775808u64 {
                    Some(i64::MIN)
                } else {
                    Some(-(n as i64))
                }
            } else {
                None
            }
        } else if n <= i64::MAX as u64 {
            Some(n as i64)
        } else {
            None
        },
        None => None,
    }
}

/// A chapter of a series page: its link made a key by dropping the site's
/// base URL, its title and number read from the link text, its upload time
/// from the `datetime` attribute.
pub fn chapter_from_link(base_url: &str, link: String, text: &str, datetime: Option<String>) -> (r: Chapter)
    ensures
        r.key@ == strip_prefix_or_self(link@, base_url@),
        opt_view(r.title) == chapter_title_of(text@),
        r.chapter_number == first_number(text@),
        r.date_uploaded == (match datetime {
            Some(d) => integer_of(d@),
            None => None,
        }),
        opt_view(r.url) == Some(link@),
        r.volume_number is None,
        r.scanlators is None,
        !r.locked,
{
    let key = strip_prefix_or_self_of(link.as_str(), base_url);
    let mut c = Chapter::new(key);
    c.title = chapter_title(text);
    c.chapter_number = find_first_number(text);
    c.date_uploaded = match &datetime {
        Some(d) => parse_integer(d.as_str()),
        None => None,
    };
    c.url = Some(link);
    c
}

/// What a series page shows: its heading, cover, author label, synopsis, tag
/// labels and status label.
#[derive(Clone, Debug)]
pub struct DetailsPage {
    pub title: Option<String>,
    pub cover: Option<String>,
    pub author_label: Option<String>,
    pub description: Option<String>,
    pub tags: Option<Vec<String>>,
    pub status_label: Option<String>,
}

/// The series with the details its page at `url` shows; the title and
/// cover it had are kept where the page lacks them.
pub fn with_details(manga: Manga, page: DetailsPage, url: String) -> (r: Manga)
    ensures
        r.key == manga.key,
        r.title == (match page.title {
            Some(t) => t,
            None => manga.title,
        }),
        r.cover == (match page.cover {
            Some(c) => Some(c),
            None => manga.cover,
        }),
        match page.author_label {
            Some(t) => if t@ == "updating"@ {
                r.authors is None
            } else {
                r.authors matches Some(v) && v@ == seq![t]
            },
            None => r.authors is None,
        },
        r.description == page.description,
        r.tags == page.tags,
        r.url == Some(url),
        r.status == (match page.status_label {
            Some(t) => status_of_label(lowercase_of(t@)),
            None => MangaStatus::Unknown,
        }),
        r.chapters == manga.chapters,
{
    let mut m = manga;
    if let Some(t) = page.title {
        m.title = t;
    }
    if let Some(c) = page.cover {
        m.cover = Some(c);
    }
    m.authors = authors_from_label(page.author_label);
    proof {
        if m.authors is Some {
            let v = m.authors->Some_0;
            if v@.len() == 1 {
                assert(v@ =~= seq![v@[0]]);
            }
        }
    }
    m.description = page.description;
    m.tags = page.tags;
    m.url = Some(url);
    m.status = status_from_label(page.status_label);
    m
}

/// Whether the items are in order of index.
pub open spec fn index_sorted(t: Seq<(i32, String)>) -> bool {
    forall|i: int, j: int| 0 <= i < j < t.len() ==> t[i].0 <= t[j].0
}

/// The items of index `k`, in their order.
pub open spec fn with_index(t: Seq<(i32, String)>, k: i32) -> Seq<(i32, String)>
    decreases t.len(),
{
    if t.len() == 0 {
        Seq::empty()
    } else if t.last().0 == k {
        with_index(t.drop_last(), k).push(t.last())
    } else {
        with_index(t.drop_last(), k)
    }
}

proof fn lemma_insert_bound(t: Seq<(i32, String)>, x: (i32, String), bound: i32)
    requires
        forall|i: int| 0 <= i < t.len() ==> t[i].0 <= bound,
        x.0 <= bound,
    ensures
        forall|i: int|
            0 <= i < insert_by_index(t, x).len() ==> (#[trigger] insert_by_index(t, x)[i]).0
                <= bound,
    decreases t.len(),
{
    lemma_insert_len(t, x);
    if t.len() > 0 && t.last().0 > x.0 {
        let u = t.drop_last();
        lemma_insert_bound(u, x, bound);
        lemma_insert_len(u, x);
        let v = insert_by_index(u, x);
        assert forall|i: int| 0 <= i < insert_by_index(t, x).len() implies (#[trigger] insert_by_index(
            t,
            x,
        )[i]).0 <= bound by {
            if i < v.len() {
                assert(insert_by_index(t, x)[i] == v[i]);
            }
        }
    }
}

proof fn lemma_insert_sorted(t: Seq<(i32, String)>, x: (i32, String), k: i32)
    requires
        index_sorted(t),
    ensures
        index_sorted(insert_by_index(t, x)),
        insert_by_index(t, x).to_multiset() =~= t.to_multiset().insert(x),
        with_index(insert_by_index(t, x), k) == (if x.0 == k {
            with_index(t, k).push(x)
        } else {
            with_index(t, k)
        }),
    decreases t.len(),
{
    broadcast use vstd::seq_lib::group_to_multiset_ensures;

    if t.len() == 0 {
        assert(seq![x] =~= Seq::<(i32, String)>::empty().push(x));
        assert(seq![x].drop_last() =~= Seq::<(i32, String)>::empty());
        assert(seq![x].last() == x);
        assert(with_index(Seq::<(i32, String)>::empty(), k) == Seq::<(i32, String)>::empty());
    } else if t.last().0 <= x.0 {
        assert(t.push(x).drop_last() =~= t);
        assert(t.push(x).last() == x);
    } else {
        let u = t.drop_last();
        let l = t.last();
        assert(index_sorted(u));
        lemma_insert_sorted(u, x, k);
        lemma_insert_len(u, x);
        let v = insert_by_index(u, x);
        assert forall|i: int| 0 <= i < u.len() implies u[i].0 <= l.0 by {
            assert(t[i] == u[i]);
        }
        lemma_insert_bound(u, x, l.0);
        assert(v.push(l).drop_last() =~= v);
        assert(v.push(l).last() == l);
        assert(u.push(l) =~= t);
        assert(with_index(v.push(l), k) == (if l.0 == k {
            with_index(v, k).push(l)
        } else {
            with_index(v, k)
        }));
        assert forall|i: int, j: int| 0 <= i < j < v.push(l).len() implies v.push(l)[i].0 <= v.push(
            l,
        )[j].0 by {
            if j < v.len() {
                assert(v.push(l)[i] == v[i]);
                assert(v.push(l)[j] == v[j]);
            } else {
                assert(v.push(l)[i] == v[i]);
            }
        }
    }
}

/// The ordered pages are sorted by index and are the input's items
/// rearranged, items of equal index kept in their input order.
pub proof fn lemma_sorted_by_index(s: Seq<(i32, String)>, k: i32)
    ensures
        index_sorted(sorted_by_index(s)),
        sorted_by_index(s).to_multiset() =~= s.to_multiset(),
        with_index(sorted_by_index(s), k) == with_index(s, k),
    decreases s.len(),
{
    broadcast use vstd::seq_lib::group_to_multiset_ensures;

    if s.len() > 0 {
        lemma_sorted_by_index(s.drop_last(), k);
        lemma_insert_sorted(sorted_by_index(s.drop_last()), s.last(), k);
        assert(s.drop_last().push(s.last()) =~= s);
    }
}

/// A link that does not begin with the site's base URL, another host's
/// among them, resolves to no match.
pub proof fn lemma_foreign_link_no_match(base_url: Seq<char>, url: Seq<char>)
    requires
        !(base_url.len() <= url.len() && url.take(base_url.len() as int) == base_url),
    ensures
        link_of(base_url, url) is None,
{
}

} // verus!
