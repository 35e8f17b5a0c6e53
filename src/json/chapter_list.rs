//! A series' chapter list.
use crate::encode::int_text;
use crate::entries::key_of;
use crate::models::{opt_view, Chapter};
use crate::route::{render, Url};
use crate::text::{chars_of, string_of, trim, trim_chars};
use crate::title::parse_title;
use vstd::prelude::*;

pub use crate::title::parse;

verus! {

/// A chapter as the chapter-list API gives it, with its upload time read.
#[derive(Clone, Debug)]
pub struct ListItem {
    pub id: u32,
    pub title: String,
    pub date_uploaded: Option<i64>,
}

/// Whether `c` is the chapter that item `it` describes.
pub open spec fn chapter_of_item(c: Chapter, it: ListItem) -> bool {
    let parsed = parse_title(trim(it.title@));
    &&& c.key@ == int_text(it.id as int)
    &&& c.volume_number == parsed.0
    &&& c.chapter_number == parsed.1
    &&& opt_view(c.title) == parsed.2
    &&& c.date_uploaded == it.date_uploaded
    &&& opt_view(c.url) == Some(render(Url::Chapter { key: c.key }))
    &&& c.scanlators is None
    &&& !c.locked
}

/// The chapter a chapter-list item describes.
pub fn chapter_from_item(it: &ListItem) -> (r: Chapter)
    ensures
        chapter_of_item(r, *it),
{
    let key = key_of(it.id);
    let tv = trim_chars(&chars_of(it.title.as_str()));
    let ts = string_of(&tv);
    let (volume_number, chapter_number, title) = parse(ts.as_str());
    let url = Url::Chapter { key: key.clone() }.to_string();
    let mut c = Chapter::new(key);
    c.title = title;
    c.chapter_number = chapter_number;
    c.volume_number = volume_number;
    c.date_uploaded = it.date_uploaded;
    c.url = Some(url);
    c
}

/// The chapters of a chapter list, in the reverse of the order the API
/// lists them in.
pub fn chapters_from_items(list: &Vec<ListItem>) -> (r: Vec<Chapter>)
    ensures
        r@.len() == list@.len(),
        forall|i: int|
            0 <= i < list@.len() ==> chapter_of_item(#[trigger] r@[i], list@[list@.len() - 1 - i]),
{
    let mut r: Vec<Chapter> = Vec::new();
    let mut k: usize = list.len();
    while k > 0
        invariant
            k <= list@.len(),
            r@.len() == list@.len() - k,
            forall|i: int|
                0 <= i < r@.len() ==> chapter_of_item(#[trigger] r@[i], list@[list@.len() - 1 - i]),
        decreases k,
    {
        k = k - 1;
        r.push(chapter_from_item(&list[k]));
    }
    r
}

#[derive(Clone, Debug)]
pub struct Root {
    pub list: Vec<ListItem>,
}

impl Root {
    /// The chapters, in the reverse of the API's order.
    pub fn chapters(&self) -> (r: Vec<Chapter>)
        ensures
            r@.len() == self.list@.len(),
            forall|i: int|
                0 <= i < self.list@.len() ==> chapter_of_item(
                    #[trigger] r@[i],
                    self.list@[self.list@.len() - 1 - i],
                ),
    {
        chapters_from_items(&self.list)
    }
}

} // verus!
