//! The entities a source hands to the reader.
use crate::numeral::Decimal;
use vstd::prelude::*;

verus! {

#[derive(Clone, Copy, Debug, PartialEq, Eq, Structural)]
pub enum MangaStatus {
    Unknown,
    Ongoing,
    Completed,
    Cancelled,
    Hiatus,
}

#[derive(Clone, Copy, Debug, PartialEq, Eq, Structural)]
pub enum ContentRating {
    Unknown,
    Safe,
    Suggestive,
    NSFW,
}

#[derive(Clone, Copy, Debug, PartialEq, Eq, Structural)]
pub enum Viewer {
    Unknown,
    LeftToRight,
    RightToLeft,
    Vertical,
    Webtoon,
}

/// A series.
#[derive(Clone, Debug)]
pub struct Manga {
    pub key: String,
    pub title: String,
    pub cover: Option<String>,
    pub artists: Option<Vec<String>>,
    pub authors: Option<Vec<String>>,
    pub description: Option<String>,
    pub url: Option<String>,
    pub tags: Option<Vec<String>>,
    pub status: MangaStatus,
    pub content_rating: ContentRating,
    pub viewer: Viewer,
    pub chapters: Option<Vec<Chapter>>,
}

impl Manga {
    /// A series known by key and title only.
    pub fn new(key: String, title: String) -> (r: Manga)
        ensures
            r.key == key,
            r.title == title,
            r.cover is None,
            r.artists is None,
            r.authors is None,
            r.description is None,
            r.url is None,
            r.tags is None,
            r.status == MangaStatus::Unknown,
            r.content_rating == ContentRating::Unknown,
            r.viewer == Viewer::Unknown,
            r.chapters is None,
    {
        Manga {
            key,
            title,
            cover: None,
            artists: None,
            authors: None,
            description: None,
            url: None,
            tags: None,
            status: MangaStatus::Unknown,
            content_rating: ContentRating::Unknown,
            viewer: Viewer::Unknown,
            chapters: None,
        }
    }
}

/// A chapter of a series. Numbers are decimals so that half chapters such as
/// 12.5 can be told apart.
#[derive(Clone, Debug)]
pub struct Chapter {
    pub key: String,
    pub title: Option<String>,
    pub chapter_number: Option<Decimal>,
    pub volume_number: Option<Decimal>,
    pub date_uploaded: Option<i64>,
    pub scanlators: Option<Vec<String>>,
    pub url: Option<String>,
    pub locked: bool,
}

impl Chapter {
    /// A chapter known by key only.
    pub fn new(key: String) -> (r: Chapter)
        ensures
            r.key == key,
            r.title is None,
            r.chapter_number is None,
            r.volume_number is None,
            r.date_uploaded is None,
            r.scanlators is None,
            r.url is None,
            !r.locked,
    {
        Chapter {
            key,
            title: None,
            chapter_number: None,
            volume_number: None,
            date_uploaded: None,
            scanlators: None,
            url: None,
            locked: false,
        }
    }
}

/// What a page shows: an image at a URL, or text.
#[derive(Clone, Debug)]
pub enum PageContent {
    Url(String),
    Text(String),
}

#[derive(Clone, Debug)]
pub struct Page {
    pub content: PageContent,
}

/// A browsable collection: an opaque id and a display name.
#[derive(Clone, Debug)]
pub struct Listing {
    pub id: String,
    pub name: String,
}

#[derive(Clone, Debug)]
pub struct MangaWithChapter {
    pub manga: Manga,
    pub chapter: Chapter,
}

#[derive(Clone, Debug)]
pub enum HomeComponentValue {
    BigScroller { entries: Vec<Manga>, auto_scroll_interval: Option<u32> },
    Scroller { entries: Vec<Manga>, listing: Option<Listing> },
    MangaList {
        ranking: bool,
        page_size: Option<i32>,
        entries: Vec<Manga>,
        listing: Option<Listing>,
    },
    MangaChapterList {
        page_size: Option<i32>,
        entries: Vec<MangaWithChapter>,
        listing: Option<Listing>,
    },
}

#[derive(Clone, Debug)]
pub struct HomeComponent {
    pub title: Option<String>,
    pub subtitle: Option<String>,
    pub value: HomeComponentValue,
}

#[derive(Clone, Debug)]
pub struct HomeLayout {
    pub components: Vec<HomeComponent>,
}

/// One page of results and whether another follows.
#[derive(Clone, Debug)]
pub struct MangaPageResult {
    pub entries: Vec<Manga>,
    pub has_next_page: bool,
}

/// What an outside link points at.
#[derive(Clone, Debug)]
pub enum DeepLinkResult {
    Manga { key: String },
    Chapter { manga_key: String, key: String },
    Listing(Listing),
}

/// The first of `candidates` that is present.
pub open spec fn first_present_of(candidates: Seq<Option<String>>) -> Option<String>
    decreases candidates.len(),
{
    if candidates.len() == 0 {
        None
    } else if candidates[0] is Some {
        candidates[0]
    } else {
        first_present_of(candidates.drop_first())
    }
}

/// The first of an ordered list of extraction results that succeeded, such
/// as a lazily loaded image address before a plain one.
pub fn first_present(candidates: &Vec<Option<String>>) -> (r: Option<String>)
    ensures
        r == first_present_of(candidates@),
{
    let mut k: usize = 0;
    assert(candidates@.skip(0) =~= candidates@);
    while k < candidates.len()
        invariant
            k <= candidates@.len(),
            first_present_of(candidates@) == first_present_of(candidates@.skip(k as int)),
        decreases candidates@.len() - k,
    {
        assert(candidates@.skip(k as int).drop_first() =~= candidates@.skip(k + 1));
        assert(candidates@.skip(k as int)[0] == candidates@[k as int]);
        if let Some(c) = &candidates[k] {
            return Some(c.clone());
        }
        k = k + 1;
    }
    None
}

/// An entry's title: its heading, else its link's title, else empty.
pub open spec fn entry_title_of(heading: Option<String>, link_title: Option<String>) -> Seq<char> {
    match heading {
        Some(h) => h@,
        None => match link_title {
            Some(t) => t@,
            None => Seq::<char>::empty(),
        },
    }
}

/// An entry's title: its heading, else its link's title, else empty, so
/// that no entry of a page is dropped.
pub fn entry_title(heading: &Option<String>, link_title: &Option<String>) -> (r: String)
    ensures
        r@ == entry_title_of(*heading, *link_title),
{
    match heading {
        Some(h) => h.clone(),
        None => match link_title {
            Some(t) => t.clone(),
            None => String::new(),
        },
    }
}

/// The characters of a string, if present.
pub open spec fn opt_view(o: Option<String>) -> Option<Seq<char>> {
    match o {
        Some(s) => Some(s@),
        None => None,
    }
}

/// The characters of each string of a list, if present.
pub open spec fn opt_views(o: Option<Vec<String>>) -> Option<Seq<Seq<char>>> {
    match o {
        Some(v) => Some(views(v@)),
        None => None,
    }
}

/// The characters of each string.
pub open spec fn views(v: Seq<String>) -> Seq<Seq<char>> {
    v.map_values(|s: String| s@)
}

} // verus!
