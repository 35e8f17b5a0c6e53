//! The "you may like" feed, which has no pagination signal.
use crate::entries::{entries_from_objs, listed_entries, MangaObj};
use crate::models::MangaPageResult;
use vstd::prelude::*;

verus! {

#[derive(Clone, Debug)]
pub struct Root {
    pub data: Vec<MangaObj>,
}

impl Root {
    /// The listed series. The feed gives no pagination signal and is always
    /// reported to have another page, which keeps it scrolling.
    pub fn into_page(&self) -> (r: MangaPageResult)
        ensures
            listed_entries(r.entries@, self.data@),
            r.has_next_page,
    {
        MangaPageResult { entries: entries_from_objs(&self.data), has_next_page: true }
    }
}

} // verus!
