//! The order of work when a series is brought up to date: details first,
//! handed to the reader as an interim result when chapters follow, then the
//! chapters.
use crate::models::{Chapter, Manga};
use vstd::prelude::*;

verus! {

/// One step of bringing a series up to date.
#[derive(Clone, Copy, Debug, PartialEq, Eq, Structural)]
pub enum UpdateStep {
    /// Fetch the series' details and merge them in.
    FetchDetails,
    /// Hand the series as it stands to the reader, as an interim result.
    SendPartial,
    /// Fetch the chapter list and set it.
    FetchChapters,
    /// Return the series as the final result.
    Finish,
}

/// The steps for a request that needs details, chapters, or both. Details
/// come first; when chapters follow, the details alone are handed over in
/// between; a request without details goes straight to the chapters.
pub open spec fn update_plan(needs_details: bool, needs_chapters: bool) -> Seq<UpdateStep> {
    if needs_details && needs_chapters {
        seq![
            UpdateStep::FetchDetails,
            UpdateStep::SendPartial,
            UpdateStep::FetchChapters,
            UpdateStep::Finish,
        ]
    } else if needs_details {
        seq![UpdateStep::FetchDetails, UpdateStep::Finish]
    } else {
        seq![UpdateStep::FetchChapters, UpdateStep::Finish]
    }
}

pub fn plan_update(needs_details: bool, needs_chapters: bool) -> (r: Vec<UpdateStep>)
    ensures
        r@ == update_plan(needs_details, needs_chapters),
{
    let mut r: Vec<UpdateStep> = Vec::new();
    if needs_details {
        r.push(UpdateStep::FetchDetails);
        if needs_chapters {
            r.push(UpdateStep::SendPartial);
        } else {
            r.push(UpdateStep::Finish);
            assert(r@ =~= update_plan(needs_details, needs_chapters));
            return r;
        }
    }
    r.push(UpdateStep::FetchChapters);
    r.push(UpdateStep::Finish);
    assert(r@ =~= update_plan(needs_details, needs_chapters));
    r
}

/// How many interim results a plan hands over.
pub open spec fn partial_count(p: Seq<UpdateStep>) -> nat
    decreases p.len(),
{
    if p.len() == 0 {
        0
    } else {
        partial_count(p.drop_last()) + if p.last() == UpdateStep::SendPartial {
            1nat
        } else {
            0nat
        }
    }
}

/// Asking for details and chapters hands over exactly one interim result,
/// after the details and before the chapters and the final result; asking for
/// details alone hands over none.
pub proof fn lemma_one_partial_result()
    ensures
        partial_count(update_plan(true, true)) == 1,
        update_plan(true, true)[0] == UpdateStep::FetchDetails,
        update_plan(true, true)[1] == UpdateStep::SendPartial,
        update_plan(true, true)[2] == UpdateStep::FetchChapters,
        update_plan(true, true).last() == UpdateStep::Finish,
        partial_count(update_plan(true, false)) == 0,
        update_plan(true, false).last() == UpdateStep::Finish,
{
    let p = update_plan(true, true);
    let first_step = seq![UpdateStep::FetchDetails];
    let two_steps = first_step.push(UpdateStep::SendPartial);
    let three_steps = two_steps.push(UpdateStep::FetchChapters);
    assert(first_step.drop_last() =~= Seq::<UpdateStep>::empty());
    assert(partial_count(Seq::<UpdateStep>::empty()) == 0);
    assert(first_step.last() == UpdateStep::FetchDetails);
    assert(partial_count(first_step) == 0);
    assert(two_steps.drop_last() =~= first_step);
    assert(two_steps.last() == UpdateStep::SendPartial);
    assert(partial_count(two_steps) == 1);
    assert(three_steps.drop_last() =~= two_steps);
    assert(three_steps.last() == UpdateStep::FetchChapters);
    assert(partial_count(three_steps) == 1);
    assert(p.drop_last() =~= three_steps);
    let q = update_plan(true, false);
    assert(q.drop_last() =~= first_step);
}

/// The fetched details, keeping the chapters the series already had.
pub fn merge_details(current: Manga, details: Manga) -> (r: Manga)
    ensures
        r.chapters == current.chapters,
        r.key == details.key,
        r.title == details.title,
        r.cover == details.cover,
        r.artists == details.artists,
        r.authors == details.authors,
        r.description == details.description,
        r.url == details.url,
        r.tags == details.tags,
        r.status == details.status,
        r.content_rating == details.content_rating,
        r.viewer == details.viewer,
{
    Manga { chapters: current.chapters, ..details }
}

/// The series with its chapter list set.
pub fn with_chapters(manga: Manga, chapters: Vec<Chapter>) -> (r: Manga)
    ensures
        r.chapters == Some(chapters),
        r.key == manga.key,
        r.title == manga.title,
        r.cover == manga.cover,
        r.artists == manga.artists,
        r.authors == manga.authors,
        r.description == manga.description,
        r.url == manga.url,
        r.tags == manga.tags,
        r.status == manga.status,
        r.content_rating == manga.content_rating,
        r.viewer == manga.viewer,
{
    Manga { chapters: Some(chapters), ..manga }
}

} // verus!
