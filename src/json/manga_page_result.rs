//! A paged listing whose end is told by a last-page flag.
use crate::entries::{entries_from_objs, listed_entries, MangaObj};
use crate::models::MangaPageResult;
use vstd::prelude::*;

verus! {

/// The listing's page.
#[derive(Clone, Debug)]
pub struct PageResult {
    pub list: Vec<MangaObj>,
    pub last_page: bool,
}

#[derive(Clone, Debug)]
pub struct Root {
    pub result: PageResult,
}

impl Root {
    /// The listed series, and another page unless this one is the last.
    pub fn into_page(&self) -> (r: MangaPageResult)
        ensures
            listed_entries(r.entries@, self.result.list@),
            r.has_next_page == !self.result.last_page,
    {
        MangaPageResult {
            entries: entries_from_objs(&self.result.list),
            has_next_page: !self.result.last_page,
        }
    }
}

} // verus!
