//! Series and chapter entries of the boylove JSON API, mapped onto the
//! reader's entities.
use crate::encode::{int_text, push_int};
use crate::models::{
    opt_view, opt_views, Chapter, ContentRating, Manga, MangaStatus, MangaWithChapter,
};
use crate::route::{render, Url, BASE_URL};
use crate::text::{
    chars_of, contains_str, hard_breaks, hard_breaks_of, nonempty, pieces, split_nonempty,
    split_trimmed, starts_with, string_of, trim, trim_chars, trimmed_nonempty,
};
use crate::title::{parse, parse_title};
use vstd::prelude::*;

verus! {

/// A series as the API lists it.
#[derive(Clone, Debug)]
pub struct MangaObj {
    pub id: u32,
    pub title: String,
    pub lanmu_id: Option<u8>,
    pub image: Option<String>,
    pub auther: Option<String>,
    pub desc: Option<String>,
    pub mhstatus: Option<u8>,
    pub keyword: Option<String>,
    pub last_chapter_title: Option<String>,
}

/// The tag that marks a series as safe for all readers.
pub open spec fn safe_tag() -> Seq<char> {
    "清水"@
}

/// The tag of site announcements, which are not series.
pub open spec fn announcement_tag() -> Seq<char> {
    "香香公告"@
}

/// Safe only when the tags hold the safe tag; restrictive otherwise,
/// including when there are no tags.
pub open spec fn rating_of(tags: Option<Seq<Seq<char>>>) -> ContentRating {
    match tags {
        Some(ts) => if ts.contains(safe_tag()) {
            ContentRating::Safe
        } else {
            ContentRating::NSFW
        },
        None => ContentRating::NSFW,
    }
}

/// The content rating a tag list gives.
pub fn content_rating(tags: &Option<Vec<String>>) -> (r: ContentRating)
    ensures
        r == rating_of(opt_views(*tags)),
{
    match tags {
        Some(ts) => if contains_str(ts, "清水") {
            ContentRating::Safe
        } else {
            ContentRating::NSFW
        },
        None => ContentRating::NSFW,
    }
}

/// An entry without the safe tag is rated restrictive, whatever its other
/// tags, and also when it has none.
pub proof fn lemma_restrictive_without_safe_tag(tags: Option<Seq<Seq<char>>>)
    requires
        !(tags matches Some(ts) && ts.contains(safe_tag())),
    ensures
        rating_of(tags) == ContentRating::NSFW,
{
}

pub open spec fn status_of(mhstatus: Option<u8>) -> MangaStatus {
    match mhstatus {
        Some(0) => MangaStatus::Ongoing,
        Some(1) => MangaStatus::Completed,
        _ => MangaStatus::Unknown,
    }
}

/// The tags of an entry: its comma-separated keywords, empty ones dropped.
pub open spec fn tags_of(keyword: Option<String>) -> Option<Seq<Seq<char>>> {
    match keyword {
        Some(k) => Some(nonempty(pieces(k@, seq![',']))),
        None => None,
    }
}

/// Whether the entry is a series to show: not of the announcement column
/// and not tagged as an announcement.
pub open spec fn is_listed(o: MangaObj) -> bool {
    o.lanmu_id != Some(5u8) && !(tags_of(o.keyword) matches Some(ts) && ts.contains(
        announcement_tag(),
    ))
}

/// A cover path on the site made absolute; other addresses kept.
pub open spec fn cover_of(image: Seq<char>) -> Seq<char> {
    if image.len() > 0 && image[0] == '/' {
        BASE_URL@ + image
    } else {
        image
    }
}

/// Whether `m` is the series that entry `o` describes.
pub open spec fn manga_of_obj(m: Manga, o: MangaObj) -> bool {
    &&& m.key@ == int_text(o.id as int)
    &&& m.title@ == o.title@
    &&& opt_view(m.cover) == (match o.image {
        Some(i) => Some(cover_of(i@)),
        None => None,
    })
    &&& opt_views(m.authors) == (match o.auther {
        Some(a) => Some(trimmed_nonempty(pieces(a@, seq![',', '&', '/']))),
        None => None,
    })
    &&& opt_view(m.description) == (match o.desc {
        Some(d) => Some(hard_breaks(trim(d@))),
        None => None,
    })
    &&& opt_view(m.url) == Some(render(Url::Manga { key: m.key }))
    &&& opt_views(m.tags) == tags_of(o.keyword)
    &&& m.status == status_of(o.mhstatus)
    &&& m.content_rating == rating_of(tags_of(o.keyword))
    &&& m.artists is None
    &&& m.chapters is None
}

/// The key of an entry: its id in decimal.
pub fn key_of(id: u32) -> (r: String)
    ensures
        r@ == int_text(id as int),
{
    let mut s = String::new();
    push_int(&mut s, id as i64);
    s
}

/// The series an API entry describes, or `None` for an announcement.
pub fn manga_from_obj(o: &MangaObj) -> (r: Option<Manga>)
    ensures
        match r {
            Some(m) => is_listed(*o) && manga_of_obj(m, *o),
            None => !is_listed(*o),
        },
{
    if o.lanmu_id == Some(5u8) {
        return None;
    }
    let comma = [','];
    assert(comma@ =~= seq![',']);
    let tags = match &o.keyword {
        Some(k) => Some(split_nonempty(k.as_str(), &comma)),
        None => None,
    };
    if let Some(ts) = &tags {
        if contains_str(ts, "香香公告") {
            return None;
        }
    }
    let key = key_of(o.id);
    let cover = match &o.image {
        Some(i) => {
            let absolute = starts_with(i.as_str(), "/");
            proof {
                reveal_strlit("/");
                assert("/"@ =~= seq!['/']);
                if i@.len() > 0 {
                    if i@[0] == '/' {
                        assert(i@.take(1) =~= "/"@);
                    } else {
                        assert(i@.take(1)[0] == i@[0]);
                    }
                }
            }
            if absolute {
                let mut c = BASE_URL.to_string();
                crate::encode::push_str(&mut c, i.as_str());
                Some(c)
            } else {
                Some(i.clone())
            }
        },
        None => None,
    };
    let seps = [',', '&', '/'];
    assert(seps@ =~= seq![',', '&', '/']);
    let authors = match &o.auther {
        Some(a) => Some(split_trimmed(a.as_str(), &seps)),
        None => None,
    };
    let description = match &o.desc {
        Some(d) => Some(hard_breaks_of(&trim_chars(&chars_of(d.as_str())))),
        None => None,
    };
    let url = Url::Manga { key: key.clone() }.to_string();
    let status = match o.mhstatus {
        Some(0) => MangaStatus::Ongoing,
        Some(1) => MangaStatus::Completed,
        _ => MangaStatus::Unknown,
    };
    let rating = content_rating(&tags);
    let mut m = Manga::new(key, o.title.clone());
    m.cover = cover;
    m.authors = authors;
    m.description = description;
    m.url = Some(url);
    m.tags = tags;
    m.status = status;
    m.content_rating = rating;
    Some(m)
}

/// An entry of a feed that also names its latest chapter.
pub open spec fn latest_chapter_of(c: Chapter, o: MangaObj) -> bool {
    let parsed = match o.last_chapter_title {
        Some(t) => parse_title(trim(t@)),
        None => (None, None, None),
    };
    &&& c.volume_number == parsed.0
    &&& c.chapter_number == parsed.1
    &&& opt_view(c.title) == parsed.2
    &&& c.key@ == Seq::<char>::empty()
    &&& c.url is None
    &&& c.date_uploaded is None
}

/// The series and latest chapter an API entry describes, or `None` for an
/// announcement.
pub fn manga_with_chapter_from_obj(o: &MangaObj) -> (r: Option<MangaWithChapter>)
    ensures
        match r {
            Some(mc) => is_listed(*o) && manga_of_obj(mc.manga, *o) && latest_chapter_of(
                mc.chapter,
                *o,
            ),
            None => !is_listed(*o),
        },
{
    let (volume_number, chapter_number, title) = match &o.last_chapter_title {
        Some(t) => {
            let tv = trim_chars(&chars_of(t.as_str()));
            let ts = string_of(&tv);
            parse(ts.as_str())
        },
        None => (None, None, None),
    };
    let mut chapter = Chapter::new(String::new());
    chapter.title = title;
    chapter.chapter_number = chapter_number;
    chapter.volume_number = volume_number;
    match manga_from_obj(o) {
        Some(manga) => Some(MangaWithChapter { manga, chapter }),
        None => None,
    }
}

/// The series of `os` that are listed, each as `manga_of_obj` maps it, in order.
pub open spec fn listed_entries(ms: Seq<Manga>, os: Seq<MangaObj>) -> bool
    decreases os.len(),
{
    if os.len() == 0 {
        ms.len() == 0
    } else if is_listed(os.last()) {
        ms.len() > 0 && manga_of_obj(ms.last(), os.last()) && listed_entries(
            ms.drop_last(),
            os.drop_last(),
        )
    } else {
        listed_entries(ms, os.drop_last())
    }
}

/// The listed series of a list of entries, in order.
pub fn entries_from_objs(os: &Vec<MangaObj>) -> (r: Vec<Manga>)
    ensures
        listed_entries(r@, os@),
{
    let mut r: Vec<Manga> = Vec::new();
    assert(os@.take(0) =~= Seq::<MangaObj>::empty());
    for i in 0..os.len()
        invariant
            listed_entries(r@, os@.take(i as int)),
    {
        let ghost t = os@.take(i + 1);
        assert(t.drop_last() =~= os@.take(i as int));
        match manga_from_obj(&os[i]) {
            Some(m) => {
                let ghost r0 = r@;
                r.push(m);
                assert(r@.drop_last() =~= r0);
            },
            None => {},
        }
    }
    assert(os@.take(os@.len() as int) =~= os@);
    r
}

} // verus!
