//! Filter values chosen by the user, and how a search or browse request is
//! made of them.
use crate::error::{copy_strings, quote, quoted, Error};
use crate::route::{render, route_path, search_path, tags_text, SearchQuery, Sort, Tags, Url};
use crate::encode::int_text;
use crate::text::str_eq;
use vstd::prelude::*;

verus! {

/// A value of one of the filters the source declares.
#[derive(Clone, Debug)]
pub enum FilterValue {
    Text { id: String, value: String },
    Sort { id: String, index: i32, ascending: bool },
    Check { id: String, value: i32 },
    Select { id: String, value: String },
    MultiSelect { id: String, included: Vec<String>, excluded: Vec<String> },
}

impl FilterValue {
    pub open spec fn id_view(self) -> Seq<char> {
        match self {
            FilterValue::Text { id, .. } => id@,
            FilterValue::Sort { id, .. } => id@,
            FilterValue::Check { id, .. } => id@,
            FilterValue::Select { id, .. } => id@,
            FilterValue::MultiSelect { id, .. } => id@,
        }
    }
}

/// What the browse filters have set so far: tags, serial status, order,
/// content rating and view permission.
pub struct BrowseSpec {
    pub tags: Seq<String>,
    pub status: Seq<char>,
    pub sort_by: Sort,
    pub content_rating: Seq<char>,
    pub view_permission: Seq<char>,
}

/// Nothing set: every status, latest first, every rating, every permission.
pub open spec fn default_browse() -> BrowseSpec {
    BrowseSpec {
        tags: Seq::empty(),
        status: "2"@,
        sort_by: Sort::LastUpdated,
        content_rating: "0"@,
        view_permission: "2"@,
    }
}

pub open spec fn browse_path(b: BrowseSpec, page: i32) -> Seq<char> {
    "/home/api/cate/tp/1-"@ + tags_text(b.tags) + "-"@ + b.status + "-"@ + b.sort_by.code() + "-"@
        + int_text(page as int) + "-"@ + b.content_rating + "-1-"@ + b.view_permission
}

/// The route the filters `fs` lead to from state `b`, as its path, or the
/// message of the error the first unrecognised filter raises. Filters are
/// read in order; an author text filter or a genre select ends the reading
/// with a keyword search.
pub open spec fn fold_filters(fs: Seq<FilterValue>, page: i32, b: BrowseSpec) -> Result<
    Seq<char>,
    Seq<char>,
>
    decreases fs.len(),
{
    if fs.len() == 0 {
        Ok(browse_path(b, page))
    } else {
        let rest = fs.drop_first();
        match fs[0] {
            FilterValue::Text { id, value } => if id@ == "author"@ {
                Ok(search_path(value@, page))
            } else {
                Err(quoted("Invalid text filter ID: "@, id@))
            },
            FilterValue::Sort { id, index, .. } => if id@ == "排序方式"@ {
                fold_filters(
                    rest,
                    page,
                    BrowseSpec {
                        sort_by: if index == 0 {
                            Sort::Popularity
                        } else {
                            Sort::LastUpdated
                        },
                        ..b
                    },
                )
            } else {
                Err(quoted("Invalid sort filter ID: "@, id@))
            },
            FilterValue::Select { id, value } => if id@ == "閱覽權限"@ {
                fold_filters(rest, page, BrowseSpec { view_permission: value@, ..b })
            } else if id@ == "連載狀態"@ {
                fold_filters(rest, page, BrowseSpec { status: value@, ..b })
            } else if id@ == "內容分級"@ {
                fold_filters(rest, page, BrowseSpec { content_rating: value@, ..b })
            } else if id@ == "genre"@ {
                Ok(search_path(value@, page))
            } else {
                Err(quoted("Invalid select filter ID: "@, id@))
            },
            FilterValue::MultiSelect { id, included, .. } => if id@ == "標籤"@ {
                fold_filters(rest, page, BrowseSpec { tags: included@, ..b })
            } else {
                Err(quoted("Invalid multi-select filter ID: "@, id@))
            },
            FilterValue::Check { id, .. } => Err(quoted("Invalid filter: "@, id@)),
        }
    }
}

/// The route a search request takes: a keyword search when a query is given,
/// whatever the filters, else what the filters lead to.
pub open spec fn query_or_filters(query: Option<Seq<char>>, page: i32, fs: Seq<FilterValue>) -> Result<
    Seq<char>,
    Seq<char>,
> {
    match query {
        Some(k) => Ok(search_path(k, page)),
        None => fold_filters(fs, page, default_browse()),
    }
}

pub open spec fn opt_str_view(q: Option<&str>) -> Option<Seq<char>> {
    match q {
        Some(s) => Some(s@),
        None => None,
    }
}

impl Url {
    /// The route of a search: `query` when given, else the filters folded in
    /// order onto the browse route. An unrecognised filter id fails.
    pub fn from_query_or_filters(query: Option<&str>, page: i32, filters: &Vec<FilterValue>) -> (r:
        Result<Url, Error>)
        ensures
            match r {
                Ok(u) => query_or_filters(opt_str_view(query), page, filters@) == Ok::<
                    Seq<char>,
                    Seq<char>,
                >(route_path(u)),
                Err(e) => e matches Error::Invalid(m) && query_or_filters(
                    opt_str_view(query),
                    page,
                    filters@,
                ) == Err::<Seq<char>, Seq<char>>(m@),
            },
    {
        if let Some(keyword) = query {
            return Ok(Url::Search(SearchQuery::new(keyword, page)));
        }
        let mut tags: Vec<String> = Vec::new();
        let mut status = "2".to_string();
        let mut sort_by = Sort::LastUpdated;
        let mut content_rating = "0".to_string();
        let mut view_permission = "2".to_string();
        let ghost fs = filters@;
        let mut i: usize = 0;
        assert(fs.skip(0) =~= fs);
        while i < filters.len()
            invariant
                i <= fs.len(),
                fs == filters@,
                query is None,
                fold_filters(fs, page, default_browse()) == fold_filters(
                    fs.skip(i as int),
                    page,
                    BrowseSpec {
                        tags: tags@,
                        status: status@,
                        sort_by,
                        content_rating: content_rating@,
                        view_permission: view_permission@,
                    },
                ),
            decreases fs.len() - i,
        {
            assert(fs.skip(i as int).drop_first() =~= fs.skip(i + 1));
            assert(fs.skip(i as int)[0] == fs[i as int]);
            match &filters[i] {
                FilterValue::Text { id, value } => {
                    if str_eq(id.as_str(), "author") {
                        return Ok(Url::Search(SearchQuery::new(value.as_str(), page)));
                    }
                    return Err(Error::Invalid(quote("Invalid text filter ID: ", id.as_str())));
                },
                FilterValue::Sort { id, index, .. } => {
                    if str_eq(id.as_str(), "排序方式") {
                        sort_by = Sort::from_repr(*index);
                    } else {
                        return Err(Error::Invalid(quote("Invalid sort filter ID: ", id.as_str())));
                    }
                },
                FilterValue::Select { id, value } => {
                    if str_eq(id.as_str(), "閱覽權限") {
                        view_permission = value.clone();
                    } else if str_eq(id.as_str(), "連載狀態") {
                        status = value.clone();
                    } else if str_eq(id.as_str(), "內容分級") {
                        content_rating = value.clone();
                    } else if str_eq(id.as_str(), "genre") {
                        return Ok(Url::Search(SearchQuery::new(value.as_str(), page)));
                    } else {
                        return Err(
                            Error::Invalid(quote("Invalid select filter ID: ", id.as_str())),
                        );
                    }
                },
                FilterValue::MultiSelect { id, included, .. } => {
                    if str_eq(id.as_str(), "標籤") {
                        tags = copy_strings(included);
                    } else {
                        return Err(
                            Error::Invalid(quote("Invalid multi-select filter ID: ", id.as_str())),
                        );
                    }
                },
                FilterValue::Check { id, .. } => {
                    return Err(Error::Invalid(quote("Invalid filter: ", id.as_str())));
                },
            }
            i = i + 1;
        }
        assert(fs.skip(i as int) =~= Seq::<FilterValue>::empty());
        Ok(
            Url::Filters {
                tags: Tags(tags),
                status,
                sort_by,
                page,
                content_rating,
                view_permission,
            },
        )
    }
}

/// A free-text query takes precedence over every structural filter: with a
/// query, the route is the keyword search whatever the filters hold, even
/// filters that would otherwise be rejected.
pub proof fn lemma_query_takes_precedence(keyword: Seq<char>, page: i32, fs: Seq<FilterValue>)
    ensures
        query_or_filters(Some(keyword), page, fs) == Ok::<Seq<char>, Seq<char>>(
            search_path(keyword, page),
        ),
{
}

/// Two builds of a search route from the same query, page and filters give
/// the same URL, character for character, parameters in the same order.
pub proof fn lemma_build_deterministic(
    query: Option<Seq<char>>,
    page: i32,
    fs: Seq<FilterValue>,
    first: Url,
    second: Url,
)
    requires
        query_or_filters(query, page, fs) == Ok::<Seq<char>, Seq<char>>(route_path(first)),
        query_or_filters(query, page, fs) == Ok::<Seq<char>, Seq<char>>(route_path(second)),
    ensures
        render(first) == render(second),
{
}

} // verus!
