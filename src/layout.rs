//! Home pages and listing pages of the template sites: sections visited in
//! document order, each turned into one display component, and the entries
//! of each section turned into series.
use crate::error::copy_strings;
use crate::liliana::{strip_prefix_or_self, strip_prefix_or_self_of};
use crate::models::{
    entry_title, entry_title_of, first_present, first_present_of, opt_view, opt_views,
    HomeComponent, HomeComponentValue, HomeLayout, Manga, MangaPageResult,
};
use vstd::prelude::*;

verus! {

/// An entry of a section as the page shows it: its link, its heading, its
/// link's title attribute, its cover candidates in order of preference, and
/// the description and tags a hero slide carries.
#[derive(Clone, Debug)]
pub struct HomeEntryNode {
    pub href: Option<String>,
    pub heading: Option<String>,
    pub link_title: Option<String>,
    pub covers: Vec<Option<String>>,
    pub description: Option<String>,
    pub tags: Option<Vec<String>>,
}

/// The kind of a section of a landing page.
#[derive(Clone, Copy, Debug, PartialEq, Eq, Structural)]
pub enum SectionShape {
    /// The large scroller at the top.
    Hero,
    /// A plain scroller or grid.
    Scroller,
    /// A ranked list.
    Ranked,
}

/// A section of a landing page: its shape, its heading, the label of its tab
/// when it is one tab of a tabbed feed, its entries in document order, and
/// the scroll interval in seconds of a hero scroller.
#[derive(Clone, Debug)]
pub struct HomeSection {
    pub shape: SectionShape,
    pub heading: Option<String>,
    pub tab_label: Option<Option<String>>,
    pub entries: Vec<HomeEntryNode>,
    pub auto_scroll_interval: Option<u32>,
}

/// Whether `m` is the series entry node `n` gives on the site `base_url`:
/// keyed by its link without the site's address, titled by its heading or
/// else its link's title, with the first cover found.
pub open spec fn entry_of(m: Manga, n: HomeEntryNode, base_url: Seq<char>) -> bool {
    &&& n.href matches Some(h) && m.key@ == strip_prefix_or_self(h@, base_url)
    &&& m.title@ == entry_title_of(n.heading, n.link_title)
    &&& m.cover == first_present_of(n.covers@)
    &&& opt_view(m.description) == opt_view(n.description)
    &&& opt_views(m.tags) == opt_views(n.tags)
    &&& m.authors is None
    &&& m.chapters is None
}

/// The series of the nodes `ns` that have a link, in order; nodes without
/// one are left out.
pub open spec fn linked_entries(ms: Seq<Manga>, ns: Seq<HomeEntryNode>, base_url: Seq<char>) -> bool
    decreases ns.len(),
{
    if ns.len() == 0 {
        ms.len() == 0
    } else if ns.last().href is Some {
        ms.len() > 0 && entry_of(ms.last(), ns.last(), base_url) && linked_entries(
            ms.drop_last(),
            ns.drop_last(),
            base_url,
        )
    } else {
        linked_entries(ms, ns.drop_last(), base_url)
    }
}

/// Whether any node has a link.
pub open spec fn any_linked(ns: Seq<HomeEntryNode>) -> bool {
    exists|i: int| 0 <= i < ns.len() && (#[trigger] ns[i]).href is Some
}

proof fn lemma_linked_empty(ms: Seq<Manga>, ns: Seq<HomeEntryNode>, base_url: Seq<char>)
    requires
        linked_entries(ms, ns, base_url),
    ensures
        ms.len() == 0 <==> !any_linked(ns),
    decreases ns.len(),
{
    if ns.len() > 0 {
        let init = ns.drop_last();
        if ns.last().href is Some {
            assert(ns[ns.len() - 1].href is Some);
        } else {
            lemma_linked_empty(ms, init, base_url);
            if any_linked(ns) {
                let i = choose|i: int| 0 <= i < ns.len() && (#[trigger] ns[i]).href is Some;
                assert(init[i].href is Some);
            }
            if any_linked(init) {
                let i = choose|i: int| 0 <= i < init.len() && (#[trigger] init[i]).href is Some;
                assert(ns[i].href is Some);
            }
        }
    }
}

/// The series an entry node gives, when it has a link.
pub fn entry_from_node(base_url: &str, n: &HomeEntryNode) -> (r: Option<Manga>)
    ensures
        match r {
            Some(m) => entry_of(m, *n, base_url@),
            None => n.href is None,
        },
{
    let h = match &n.href {
        Some(h) => h,
        None => return None,
    };
    let key = strip_prefix_or_self_of(h.as_str(), base_url);
    let mut m = Manga::new(key, entry_title(&n.heading, &n.link_title));
    m.cover = first_present(&n.covers);
    m.description = match &n.description {
        Some(d) => Some(d.clone()),
        None => None,
    };
    m.tags = match &n.tags {
        Some(t) => Some(copy_strings(t)),
        None => None,
    };
    Some(m)
}

/// The series of the nodes that have a link, in order.
pub fn entries_from_nodes(base_url: &str, ns: &Vec<HomeEntryNode>) -> (r: Vec<Manga>)
    ensures
        linked_entries(r@, ns@, base_url@),
{
    let mut r: Vec<Manga> = Vec::new();
    assert(ns@.take(0) =~= Seq::<HomeEntryNode>::empty());
    for i in 0..ns.len()
        invariant
            linked_entries(r@, ns@.take(i as int), base_url@),
    {
        assert(ns@.take(i + 1).drop_last() =~= ns@.take(i as int));
        assert(ns@.take(i + 1).last() == ns@[i as int]);
        match entry_from_node(base_url, &ns[i]) {
            Some(m) => {
                let ghost r0 = r@;
                r.push(m);
                assert(r@.drop_last() =~= r0);
            },
            None => {},
        }
    }
    assert(ns@.take(ns@.len() as int) =~= ns@);
    r
}

/// Whether `c` is the component section `s` gives: titled by its tab's label
/// when it is a tab, else by its heading; a hero gives a big scroller, a
/// scroller a scroller, a ranked list a list marked as a ranking.
pub open spec fn component_of_section(c: HomeComponent, s: HomeSection, base_url: Seq<char>) -> bool {
    &&& c.title == (match s.tab_label {
        Some(l) => l,
        None => s.heading,
    })
    &&& c.subtitle is None
    &&& match s.shape {
        SectionShape::Hero => c.value matches HomeComponentValue::BigScroller {
            entries,
            auto_scroll_interval,
        } && linked_entries(entries@, s.entries@, base_url) && auto_scroll_interval
            == s.auto_scroll_interval,
        SectionShape::Scroller => c.value matches HomeComponentValue::Scroller {
            entries,
            listing,
        } && linked_entries(entries@, s.entries@, base_url) && listing is None,
        SectionShape::Ranked => c.value matches HomeComponentValue::MangaList {
            ranking,
            page_size,
            entries,
            listing,
        } && ranking && page_size is None && linked_entries(entries@, s.entries@, base_url)
            && listing is None,
    }
}

/// Whether a section gives a component: every section does, but a hero
/// without a linked entry.
pub open spec fn shown(s: HomeSection) -> bool {
    s.shape != SectionShape::Hero || any_linked(s.entries@)
}

/// One component per section shown, in document order.
pub open spec fn home_layout_of(cs: Seq<HomeComponent>, base_url: Seq<char>, ss: Seq<HomeSection>) -> bool
    decreases ss.len(),
{
    if ss.len() == 0 {
        cs.len() == 0
    } else if shown(ss.last()) {
        cs.len() > 0 && component_of_section(cs.last(), ss.last(), base_url) && home_layout_of(
            cs.drop_last(),
            base_url,
            ss.drop_last(),
        )
    } else {
        home_layout_of(cs, base_url, ss.drop_last())
    }
}

fn tab_or_heading(s: &HomeSection) -> (r: Option<String>)
    ensures
        r == (match s.tab_label {
            Some(l) => l,
            None => s.heading,
        }),
{
    match &s.tab_label {
        Some(Some(l)) => Some(l.clone()),
        Some(None) => None,
        None => match &s.heading {
            Some(h) => Some(h.clone()),
            None => None,
        },
    }
}

/// The home layout of a landing page of the site `base_url`.
pub fn home_layout(base_url: &str, sections: &Vec<HomeSection>) -> (r: HomeLayout)
    ensures
        home_layout_of(r.components@, base_url@, sections@),
{
    let mut cs: Vec<HomeComponent> = Vec::new();
    assert(sections@.take(0) =~= Seq::<HomeSection>::empty());
    for i in 0..sections.len()
        invariant
            home_layout_of(cs@, base_url@, sections@.take(i as int)),
    {
        assert(sections@.take(i + 1).drop_last() =~= sections@.take(i as int));
        assert(sections@.take(i + 1).last() == sections@[i as int]);
        let s = &sections[i];
        let entries = entries_from_nodes(base_url, &s.entries);
        proof {
            lemma_linked_empty(entries@, s.entries@, base_url@);
        }
        if !(s.shape == SectionShape::Hero && entries.len() == 0) {
            let title = tab_or_heading(s);
            let value = match s.shape {
                SectionShape::Hero => HomeComponentValue::BigScroller {
                    entries,
                    auto_scroll_interval: s.auto_scroll_interval,
                },
                SectionShape::Scroller => HomeComponentValue::Scroller { entries, listing: None },
                SectionShape::Ranked => HomeComponentValue::MangaList {
                    ranking: true,
                    page_size: None,
                    entries,
                    listing: None,
                },
            };
            let ghost c0 = cs@;
            cs.push(HomeComponent { title, subtitle: None, value });
            assert(cs@.drop_last() =~= c0);
        }
    }
    assert(sections@.take(sections@.len() as int) =~= sections@);
    HomeLayout { components: cs }
}

/// A listing page: the series of its linked entries, and whether the pager
/// shows a page after the current one.
pub fn manga_page(base_url: &str, entries: &Vec<HomeEntryNode>, has_next_page: bool) -> (r: MangaPageResult)
    ensures
        linked_entries(r.entries@, entries@, base_url@),
        r.has_next_page == has_next_page,
{
    MangaPageResult { entries: entries_from_nodes(base_url, entries), has_next_page }
}

} // verus!
