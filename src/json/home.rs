//! The data of the home page: one section per feed.
use crate::boylove::{listing, listing_view};
use crate::entries::{is_listed, latest_chapter_of, manga_of_obj, manga_with_chapter_from_obj, MangaObj};
use crate::models::{HomeComponent, HomeComponentValue, HomeLayout, Listing, MangaWithChapter};
use crate::text::str_eq;
use vstd::prelude::*;

verus! {

/// A section of the home page's embedded data.
#[derive(Clone, Debug)]
pub struct Data {
    pub data: Vec<MangaObj>,
    pub title: String,
    pub name: String,
}

/// The listing a home section links to, by the section's name.
pub open spec fn section_listing(name: Seq<char>) -> Option<(Seq<char>, Seq<char>)> {
    if name == "newest"@ {
        Some(("11"@, "最新"@))
    } else if name == "recommend"@ {
        Some(("recommend"@, "無碼專區"@))
    } else if name == "topestmh"@ {
        Some(("topestmh"@, "排行榜"@))
    } else if name == "cnxh"@ {
        Some((Seq::empty(), "猜你喜歡"@))
    } else {
        None
    }
}

fn section_listing_of(name: &str) -> (r: Option<Listing>)
    ensures
        listing_view(r) == section_listing(name@),
{
    if str_eq(name, "newest") {
        Some(listing("11", "最新"))
    } else if str_eq(name, "recommend") {
        Some(listing("recommend", "無碼專區"))
    } else if str_eq(name, "topestmh") {
        Some(listing("topestmh", "排行榜"))
    } else if str_eq(name, "cnxh") {
        let r = Some(listing("", "猜你喜歡"));
        proof {
            reveal_strlit("");
        }
        r
    } else {
        None
    }
}

/// The listed series of `os` with their latest chapters, in order.
pub open spec fn listed_with_chapters(ms: Seq<MangaWithChapter>, os: Seq<MangaObj>) -> bool
    decreases os.len(),
{
    if os.len() == 0 {
        ms.len() == 0
    } else if is_listed(os.last()) {
        ms.len() > 0 && manga_of_obj(ms.last().manga, os.last())
            && latest_chapter_of(ms.last().chapter, os.last())
            && listed_with_chapters(ms.drop_last(), os.drop_last())
    } else {
        listed_with_chapters(ms, os.drop_last())
    }
}

/// Whether `c` is the component home section `d` gives: titled by the
/// section, two entries to a page, linking to the section's listing.
pub open spec fn component_of(c: HomeComponent, d: Data) -> bool {
    &&& c.title matches Some(t) && t@ == d.title@
    &&& c.subtitle is None
    &&& c.value matches HomeComponentValue::MangaChapterList { page_size, entries, listing } && page_size
        == Some(2i32) && listed_with_chapters(entries@, d.data@) && listing_view(listing)
        == section_listing(d.name@)
}

/// The component a home section gives.
pub fn component(d: &Data) -> (r: HomeComponent)
    ensures
        component_of(r, *d),
{
    let mut entries: Vec<MangaWithChapter> = Vec::new();
    let os = &d.data;
    assert(os@.take(0) =~= Seq::<MangaObj>::empty());
    for i in 0..os.len()
        invariant
            os@ == d.data@,
            listed_with_chapters(entries@, os@.take(i as int)),
    {
        assert(os@.take(i + 1).drop_last() =~= os@.take(i as int));
        match manga_with_chapter_from_obj(&os[i]) {
            Some(m) => {
                let ghost e0 = entries@;
                entries.push(m);
                assert(entries@.drop_last() =~= e0);
            },
            None => {},
        }
    }
    assert(os@.take(os@.len() as int) =~= os@);
    HomeComponent {
        title: Some(d.title.clone()),
        subtitle: None,
        value: HomeComponentValue::MangaChapterList {
            page_size: Some(2),
            entries,
            listing: section_listing_of(d.name.as_str()),
        },
    }
}

/// The components of the home sections `ds` other than articles, in order.
pub open spec fn home_components(cs: Seq<HomeComponent>, ds: Seq<Data>) -> bool
    decreases ds.len(),
{
    if ds.len() == 0 {
        cs.len() == 0
    } else if ds.last().name@ != "article"@ {
        cs.len() > 0 && component_of(cs.last(), ds.last()) && home_components(
            cs.drop_last(),
            ds.drop_last(),
        )
    } else {
        home_components(cs, ds.drop_last())
    }
}

/// The home layout of the embedded home data: one component per section,
/// articles left out.
fn layout_of(sections: &Vec<Data>) -> (r: HomeLayout)
    ensures
        home_components(r.components@, sections@),
{
    let mut cs: Vec<HomeComponent> = Vec::new();
    assert(sections@.take(0) =~= Seq::<Data>::empty());
    for i in 0..sections.len()
        invariant
            home_components(cs@, sections@.take(i as int)),
    {
        assert(sections@.take(i + 1).drop_last() =~= sections@.take(i as int));
        if !str_eq(sections[i].name.as_str(), "article") {
            let ghost c0 = cs@;
            cs.push(component(&sections[i]));
            assert(cs@.drop_last() =~= c0);
        }
    }
    assert(sections@.take(sections@.len() as int) =~= sections@);
    HomeLayout { components: cs }
}

#[derive(Clone, Debug)]
pub struct Root {
    pub data: Vec<Data>,
}

impl Root {
    /// The home layout: one component per section, articles left out.
    pub fn into_layout(&self) -> (r: HomeLayout)
        ensures
            home_components(r.components@, self.data@),
    {
        layout_of(&self.data)
    }
}

} // verus!
