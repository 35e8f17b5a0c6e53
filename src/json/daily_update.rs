//! The daily-update feed, paged by a cursor and a page count.
use crate::entries::{entries_from_objs, listed_entries, MangaObj};
use crate::models::MangaPageResult;
use vstd::prelude::*;

verus! {

/// The pagination markers of the feed.
#[derive(Clone, Copy, Debug)]
pub struct PcPagi {
    pub page_dump: u16,
    pub page_end: u16,
}

impl PcPagi {
    /// Another page follows while the current page is before the last.
    pub fn has_next_page(&self) -> (r: bool)
        ensures
            r == (self.page_dump < self.page_end),
    {
        self.page_dump < self.page_end
    }
}

#[derive(Clone, Debug)]
pub struct Root {
    pub result: Vec<MangaObj>,
    pub pc_pagi: PcPagi,
}

impl Root {
    /// The listed series, and whether the cursor is before the last page.
    pub fn into_page(&self) -> (r: MangaPageResult)
        ensures
            listed_entries(r.entries@, self.result@),
            r.has_next_page == (self.pc_pagi.page_dump < self.pc_pagi.page_end),
    {
        MangaPageResult {
            entries: entries_from_objs(&self.result),
            has_next_page: self.pc_pagi.has_next_page(),
        }
    }
}

} // verus!
