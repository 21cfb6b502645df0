//! Syncing against a cached copy of a book: deciding whether its chapters
//! have to be downloaded again.

use crate::book::{Book, Chapter, ChapterView};
use vstd::prelude::*;

verus! {

/// The entry point to the books of Royal Road.
#[derive(Clone, Copy, Debug, PartialEq, Eq, Structural)]
pub struct RoyalRoadApi;

/// The first chapter of `chapters` that lies at `url`, from the index `from` on.
pub open spec fn first_at(chapters: Seq<ChapterView>, url: Seq<char>, from: int) -> Option<
    ChapterView,
>
    decreases chapters.len() - from,
{
    if from < 0 || from >= chapters.len() {
        None
    } else if chapters[from].url == url {
        Some(chapters[from])
    } else {
        first_at(chapters, url, from + 1)
    }
}

/// The cached copy does not hold `chapter` as the site shows it: it lacks a
/// chapter at that URL, or holds one with another date.
pub open spec fn out_of_date(chapter: ChapterView, cached: Seq<ChapterView>) -> bool {
    match first_at(cached, chapter.url, 0) {
        Some(known) => known.date_published != chapter.date_published,
        None => true,
    }
}

/// Some chapter of `fetched` is out of date in `cached`.
pub open spec fn any_out_of_date(fetched: Seq<ChapterView>, cached: Seq<ChapterView>) -> bool {
    exists|i: int| 0 <= i < fetched.len() && out_of_date(#[trigger] fetched[i], cached)
}

impl RoyalRoadApi {
    /// The entry point.
    pub fn new() -> (r: RoyalRoadApi)
        ensures
            r == RoyalRoadApi,
    {
        RoyalRoadApi
    }

    /// Whether the cached copy holds `chapter` with another date, or not at all.
    pub fn is_out_of_date(&self, chapter: &Chapter, cached: &Book) -> (r: bool)
        ensures
            r == out_of_date(chapter@, cached@.chapters),
    {
        let mut i: usize = 0;
        while i < cached.chapters.len()
            invariant
                i <= cached.chapters@.len(),
                first_at(cached@.chapters, chapter@.url, 0) == first_at(
                    cached@.chapters,
                    chapter@.url,
                    i as int,
                ),
            decreases cached.chapters@.len() - i,
        {
            assert(cached@.chapters[i as int] == cached.chapters@[i as int]@);
            if cached.chapters[i].url == chapter.url {
                return cached.chapters[i].date_published != chapter.date_published;
            }
            i = i + 1;
        }
        true
    }

    /// Whether the chapters of a book have to be downloaded again: when the
    /// caller asks to ignore the cache, or some chapter that the site shows
    /// is out of date in the cached copy.
    pub fn should_update(&self, fetched: &Book, cached: &Book, ignore_cache: bool) -> (r: bool)
        ensures
            r == (ignore_cache || any_out_of_date(fetched@.chapters, cached@.chapters)),
    {
        if ignore_cache {
            return true;
        }
        let mut i: usize = 0;
        while i < fetched.chapters.len()
            invariant
                i <= fetched.chapters@.len(),
                forall|k: int|
                    0 <= k < i ==> !out_of_date(#[trigger] fetched@.chapters[k], cached@.chapters),
            decreases fetched.chapters@.len() - i,
        {
            assert(fetched@.chapters[i as int] == fetched.chapters@[i as int]@);
            if self.is_out_of_date(&fetched.chapters[i], cached) {
                return true;
            }
            i = i + 1;
        }
        false
    }
}

} // verus!
