//! What the site's HTML pages yield once their elements are selected: the
//! tag filter, the home page's embedded data, a chapter's images, and
//! element attributes that must be present.
use crate::boylove::tag_options;
use crate::error::{quote, quoted, Error};
use crate::boylove::{after_last_slash, after_last_slash_of};
use crate::entries::{content_rating, rating_of};
use crate::models::{opt_view, opt_views, views, Manga, MangaStatus, Page, PageContent};
use crate::text::{
    chars_of, find, find_chars, join_trimmed, nonempty, replace_all, replace_chars, slice_chars,
    split_str_from, split_trim_join, string_of, trim, trim_chars,
};
use vstd::prelude::*;

verus! {

/// A multi-select filter the source declares.
#[derive(Clone, Debug)]
pub struct MultiSelectFilter {
    pub id: String,
    pub title: Option<String>,
    pub is_genre: bool,
    pub uses_tag_style: bool,
    pub options: Vec<String>,
}

/// The category page: the `data-value` of each tag button, where present.
#[derive(Clone, Debug)]
pub struct CategoryPage {
    pub tag_values: Vec<Option<String>>,
}

pub trait FiltersPage {
    spec fn tag_values_of(&self) -> Seq<Option<String>>;

    /// The tag filter: one option per tag button, placeholders left out.
    fn tags_filter(&self) -> (r: MultiSelectFilter)
        ensures
            views(r.options@) == tag_options(self.tag_values_of()),
            r.id@ == "標籤"@,
            opt_view(r.title) == Some("標籤"@),
            r.is_genre,
            r.uses_tag_style,
    ;
}

impl FiltersPage for CategoryPage {
    open spec fn tag_values_of(&self) -> Seq<Option<String>> {
        self.tag_values@
    }

    fn tags_filter(&self) -> (r: MultiSelectFilter) {
        MultiSelectFilter {
            id: "標籤".to_string(),
            title: Some("標籤".to_string()),
            is_genre: true,
            uses_tag_style: true,
            options: crate::boylove::tag_options_of(&self.tag_values),
        }
    }
}

/// The text that marks the script holding the home page's data.
pub open spec fn data_marker() -> Seq<char> {
    "let data = JSON.parse"@
}

pub open spec fn json_open() -> Seq<char> {
    "JSON.parse(\""@
}

pub open spec fn json_close() -> Seq<char> {
    "\");"@
}

/// The first script that holds the data marker, from index `k` on.
pub open spec fn data_script(scripts: Seq<Option<String>>, k: int) -> Option<Seq<char>>
    decreases scripts.len() - k,
{
    if k < 0 || k >= scripts.len() {
        None
    } else if scripts[k] matches Some(t) && find(t@, data_marker()) is Some {
        Some(scripts[k]->Some_0@)
    } else {
        data_script(scripts, k + 1)
    }
}

/// A JavaScript string literal's text with its escapes of `"`, `\` and `'`
/// undone, in that order.
pub open spec fn unescape(x: Seq<char>) -> Seq<char> {
    replace_all(replace_all(replace_all(x, "\\\""@, "\""@), "\\\\"@, "\\"@), "\\'"@, "'"@)
}

/// The JSON text embedded in the home page's scripts: the string literal
/// handed to `JSON.parse` in the first script holding the data marker,
/// unescaped; `None` where any part is missing.
pub open spec fn embedded_json(scripts: Seq<Option<String>>) -> Option<Seq<char>> {
    match data_script(scripts, 0) {
        Some(t) => match find(t, json_open()) {
            Some(a) => {
                let rest = t.skip(a + json_open().len());
                match find(rest, json_close()) {
                    Some(b) => Some(unescape(rest.take(b))),
                    None => None,
                }
            },
            None => None,
        },
        None => None,
    }
}

/// The home page: the text of each script element, where it has one.
#[derive(Clone, Debug)]
pub struct ScriptsPage {
    pub scripts: Vec<Option<String>>,
}

pub trait HomePage {
    spec fn scripts_of(&self) -> Seq<Option<String>>;

    /// The JSON text of the home page's data; an error naming what is missing.
    fn home_data_json(&self) -> (r: Result<String, Error>)
        ensures
            match r {
                Ok(j) => embedded_json(self.scripts_of()) == Some(j@),
                Err(e) => embedded_json(self.scripts_of()) is None && e is Missing,
            },
    ;
}

fn has_marker(t: &String) -> (r: bool)
    ensures
        r == (find(t@, data_marker()) is Some),
{
    let v = chars_of(t.as_str());
    let m = chars_of("let data = JSON.parse");
    find_chars(&v, &m).is_some()
}

fn data_script_of(scripts: &Vec<Option<String>>) -> (r: Option<&String>)
    ensures
        match r {
            Some(t) => data_script(scripts@, 0) == Some(t@),
            None => data_script(scripts@, 0) is None,
        },
{
    let mut k: usize = 0;
    while k < scripts.len()
        invariant
            k <= scripts@.len(),
            data_script(scripts@, 0) == data_script(scripts@, k as int),
        decreases scripts@.len() - k,
    {
        if let Some(t) = &scripts[k] {
            if has_marker(t) {
                return Some(t);
            }
        }
        k = k + 1;
    }
    None
}

fn unescape_of(x: &[char]) -> (r: Vec<char>)
    ensures
        r@ == unescape(x@),
{
    proof {
        reveal_strlit("\\\"");
        reveal_strlit("\\\\");
        reveal_strlit("\\'");
    }
    let a = replace_chars(x, &chars_of("\\\""), &chars_of("\""));
    let b = replace_chars(&a, &chars_of("\\\\"), &chars_of("\\"));
    replace_chars(&b, &chars_of("\\'"), &chars_of("'"))
}

impl HomePage for ScriptsPage {
    open spec fn scripts_of(&self) -> Seq<Option<String>> {
        self.scripts@
    }

    fn home_data_json(&self) -> (r: Result<String, Error>) {
        let t = match data_script_of(&self.scripts) {
            Some(t) => t,
            None => {
                return Err(
                    Error::Missing(quote("No script contains ", "let data = JSON.parse")),
                );
            },
        };
        let v = chars_of(t.as_str());
        let open = chars_of("JSON.parse(\"");
        let a = match find_chars(&v, &open) {
            Some(a) => a,
            None => {
                return Err(Error::Missing(quote("String not found: ", "JSON.parse(\"")));
            },
        };
        let start = if open.len() <= v.len() - a {
            a + open.len()
        } else {
            v.len()
        };
        let rest = slice_chars(&v, start, v.len());
        assert(rest@ =~= v@.skip(a + open@.len()));
        let close = chars_of("\");");
        let b = match find_chars(&rest, &close) {
            Some(b) => b,
            None => {
                return Err(Error::Missing(quote("String not found: ", "\");")));
            },
        };
        let body = slice_chars(&rest, 0, b);
        assert(body@ =~= rest@.take(b as int));
        Ok(string_of(&unescape_of(&body)))
    }
}

/// Whether page `p` is the image at `src`.
pub open spec fn shows_image(p: Page, src: Option<String>) -> bool {
    p.content matches PageContent::Url(u) && Some(u@) == opt_view(src)
}

/// A chapter page: the image address of each lazily loaded image, where the
/// image has one; `None` where the page has no such images at all.
#[derive(Clone, Debug)]
pub struct ChapterImages {
    pub sources: Option<Vec<Option<String>>>,
}

pub trait ChapterPage {
    spec fn sources_of(&self) -> Option<Seq<Option<String>>>;

    /// One image page per image, in order; an error when the images are
    /// missing or one of them has no address.
    fn pages(&self) -> (r: Result<Vec<Page>, Error>)
        ensures
            match self.sources_of() {
                Some(srcs) => if forall|i: int| 0 <= i < srcs.len() ==> srcs[i] is Some {
                    r matches Ok(ps) && ps@.len() == srcs.len() && forall|i: int|
                        0 <= i < srcs.len() ==> shows_image(#[trigger] ps@[i], srcs[i])
                } else {
                    r matches Err(Error::Missing(_))
                },
                None => r matches Err(Error::Missing(_)),
            },
    ;
}

impl ChapterPage for ChapterImages {
    open spec fn sources_of(&self) -> Option<Seq<Option<String>>> {
        match &self.sources {
            Some(v) => Some(v@),
            None => None,
        }
    }

    fn pages(&self) -> (r: Result<Vec<Page>, Error>) {
        let srcs = match &self.sources {
            Some(v) => v,
            None => {
                return Err(Error::Missing(quote("No element found for selector: ", "img.lazy")));
            },
        };
        let mut ps: Vec<Page> = Vec::new();
        for i in 0..srcs.len()
            invariant
                self.sources_of() == Some(srcs@),
                ps@.len() == i,
                forall|j: int| 0 <= j < i ==> srcs@[j] is Some,
                forall|j: int|
                    0 <= j < i ==> shows_image(#[trigger] ps@[j], srcs@[j]),
        {
            match &srcs[i] {
                Some(u) => ps.push(Page { content: PageContent::Url(u.clone()) }),
                None => {
                    return Err(
                        Error::Missing(quote("Attribute not found: ", "abs:data-original")),
                    );
                },
            }
        }
        Ok(ps)
    }
}

/// An element's attributes, in document order.
#[derive(Clone, Debug)]
pub struct Element {
    pub attributes: Vec<(String, String)>,
}

/// The value of the first attribute named `name`.
pub open spec fn attr_lookup(attrs: Seq<(String, String)>, name: Seq<char>) -> Option<Seq<char>>
    decreases attrs.len(),
{
    if attrs.len() == 0 {
        None
    } else if attrs[0].0@ == name {
        Some(attrs[0].1@)
    } else {
        attr_lookup(attrs.drop_first(), name)
    }
}

pub trait TryElement {
    spec fn attributes_of(&self) -> Seq<(String, String)>;

    /// The attribute's value; an error naming it when it is absent.
    fn try_attr(&self, attr_name: &str) -> (r: Result<String, Error>)
        ensures
            match attr_lookup(self.attributes_of(), attr_name@) {
                Some(v) => r matches Ok(s) && s@ == v,
                None => r matches Err(Error::Missing(m)) && m@ == quoted(
                    "Attribute not found: "@,
                    attr_name@,
                ),
            },
    ;
}

impl TryElement for Element {
    open spec fn attributes_of(&self) -> Seq<(String, String)> {
        self.attributes@
    }

    fn try_attr(&self, attr_name: &str) -> (r: Result<String, Error>) {
        let attrs = &self.attributes;
        let mut k: usize = 0;
        assert(attrs@.skip(0) =~= attrs@);
        while k < attrs.len()
            invariant
                k <= attrs@.len(),
                attrs@ == self.attributes@,
                attr_lookup(attrs@, attr_name@) == attr_lookup(attrs@.skip(k as int), attr_name@),
            decreases attrs@.len() - k,
        {
            assert(attrs@.skip(k as int).drop_first() =~= attrs@.skip(k + 1));
            assert(attrs@.skip(k as int)[0] == attrs@[k as int]);
            if crate::text::str_eq(attrs[k].0.as_str(), attr_name) {
                return Ok(attrs[k].1.clone());
            }
            k = k + 1;
        }
        Err(Error::Missing(quote("Attribute not found: ", attr_name)))
    }
}

/// The details page of a series, its elements read: the canonical link,
/// the heading, the cover, the author links' texts, the description's HTML,
/// the tag labels and the status label.
#[derive(Clone, Debug)]
pub struct DetailsPage {
    pub canonical_url: Option<String>,
    pub title: Option<String>,
    pub cover: Option<String>,
    pub authors: Option<Vec<String>>,
    pub description_html: Option<String>,
    pub tags: Option<Vec<String>>,
    pub status_label: Option<String>,
}

/// The HTML before its first closing tag.
pub open spec fn before_close(h: Seq<char>) -> Seq<char> {
    match find(h, "</"@) {
        Some(i) => h.take(i),
        None => h,
    }
}

/// A description from its HTML: up to the first closing tag, each line
/// between `<br />` trimmed, lines joined by Markdown hard breaks, trimmed.
pub open spec fn description_of(h: Seq<char>) -> Seq<char> {
    trim(join_trimmed(split_str_from(before_close(h), "<br />"@, 0), "  \n"@))
}

pub fn description_from_html(h: &str) -> (r: String)
    ensures
        r@ == description_of(h@),
{
    let v = chars_of(h);
    let body = match find_chars(&v, &chars_of("</")) {
        Some(i) => slice_chars(&v, 0, i),
        None => v,
    };
    assert(body@ =~= before_close(h@));
    let br = chars_of("<br />");
    proof {
        reveal_strlit("<br />");
    }
    let joined = split_trim_join(&body, &br, "  \n");
    string_of(&trim_chars(&chars_of(joined.as_str())))
}

pub open spec fn details_status(l: Option<String>) -> MangaStatus {
    match l {
        Some(t) => if t@ == "连载中"@ || t@ == "連載中"@ {
            MangaStatus::Ongoing
        } else if t@ == "完结"@ || t@ == "完結"@ {
            MangaStatus::Completed
        } else {
            MangaStatus::Unknown
        },
        None => MangaStatus::Unknown,
    }
}

fn details_status_of(l: &Option<String>) -> (r: MangaStatus)
    ensures
        r == details_status(*l),
{
    match l {
        Some(t) => {
            let t = t.as_str();
            if crate::text::str_eq(t, "连载中") || crate::text::str_eq(t, "連載中") {
                MangaStatus::Ongoing
            } else if crate::text::str_eq(t, "完结") || crate::text::str_eq(t, "完結") {
                MangaStatus::Completed
            } else {
                MangaStatus::Unknown
            }
        },
        None => MangaStatus::Unknown,
    }
}

/// The non-empty tag labels.
pub open spec fn page_tags(t: Option<Vec<String>>) -> Option<Seq<Seq<char>>> {
    match t {
        Some(v) => Some(nonempty(views(v@))),
        None => None,
    }
}

fn nonempty_strings(v: &Vec<String>) -> (r: Vec<String>)
    ensures
        views(r@) == nonempty(views(v@)),
{
    let mut r: Vec<String> = Vec::new();
    assert(views(v@.take(0)) =~= Seq::<Seq<char>>::empty());
    for i in 0..v.len()
        invariant
            views(r@) == nonempty(views(v@.take(i as int))),
    {
        assert(views(v@.take(i + 1)).drop_last() =~= views(v@.take(i as int)));
        assert(views(v@.take(i + 1)).last() == v@[i as int]@);
        if v[i].as_str().unicode_len() > 0 {
            r.push(v[i].clone());
        }
        assert(views(r@) =~= nonempty(views(v@.take(i + 1))));
    }
    assert(v@.take(v@.len() as int) =~= v@);
    r
}

/// Whether `m` is the series a details page shows, its canonical link being
/// `url`.
pub open spec fn details_of(m: Manga, p: DetailsPage, url: Seq<char>) -> bool {
    &&& Some(m.key@) == after_last_slash(url)
    &&& Some(m.title@) == opt_view(p.title)
    &&& opt_view(m.cover) == opt_view(p.cover)
    &&& opt_views(m.authors) == opt_views(p.authors)
    &&& opt_view(m.description) == (match p.description_html {
        Some(h) => Some(description_of(h@)),
        None => None,
    })
    &&& opt_view(m.url) == Some(url)
    &&& opt_views(m.tags) == page_tags(p.tags)
    &&& m.status == details_status(p.status_label)
    &&& m.content_rating == rating_of(page_tags(p.tags))
}

pub trait MangaPage {
    spec fn page_of(&self) -> DetailsPage;

    /// The series the page shows. The canonical link and the title are
    /// required; every other field is absent when the page lacks it.
    fn manga_details(&self) -> (r: Result<Manga, Error>)
        ensures
            match self.page_of().canonical_url {
                None => r matches Err(Error::Missing(_)),
                Some(u) => match after_last_slash(u@) {
                    None => r matches Err(Error::Invalid(_)),
                    Some(_) => match self.page_of().title {
                        None => r matches Err(Error::Missing(_)),
                        Some(_) => r matches Ok(m) && details_of(m, self.page_of(), u@),
                    },
                },
            },
    ;
}

impl MangaPage for DetailsPage {
    open spec fn page_of(&self) -> DetailsPage {
        *self
    }

    fn manga_details(&self) -> (r: Result<Manga, Error>) {
        let url = match &self.canonical_url {
            Some(u) => u,
            None => {
                return Err(
                    Error::Missing(quote("No element found for selector: ", "link[rel=canonical]")),
                );
            },
        };
        let key = match after_last_slash_of(url.as_str()) {
            Some(k) => k,
            None => {
                return Err(Error::Invalid(quote("No character `/` found in URL: ", url.as_str())));
            },
        };
        let title = match &self.title {
            Some(t) => t.clone(),
            None => {
                let mut m = "No title found for URL: ".to_string();
                crate::encode::push_str(&mut m, url.as_str());
                return Err(Error::Missing(m));
            },
        };
        let tags = match &self.tags {
            Some(v) => Some(nonempty_strings(v)),
            None => None,
        };
        let mut m = Manga::new(key, title);
        m.cover = self.cover.clone();
        m.authors = match &self.authors {
            Some(a) => Some(crate::error::copy_strings(a)),
            None => None,
        };
        m.description = match &self.description_html {
            Some(h) => Some(description_from_html(h.as_str())),
            None => None,
        };
        m.url = Some(url.clone());
        m.content_rating = content_rating(&tags);
        m.tags = tags;
        m.status = details_status_of(&self.status_label);
        Ok(m)
    }
}

} // verus!
