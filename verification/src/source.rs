//! Which source handles a book, told from its URL.

use crate::book::{chapter_views, Book, Chapter, ChapterView, Timestamp};
use crate::failure::Failure;
use crate::fanficfare::{names_known_site, FanFicFare};
use crate::text::{
    chars_of, decimal, decimal_text, opt_texts, opt_view, replace, replaced, starts_with, text_of,
    texts,
};
use crate::html::{
    first_non_empty, pick_first_non_empty, select_inner_html, select_inner_html_without,
    selected_inner_html, selected_inner_html_without,
};
use crate::updater::{ChapterContent, ChapterContentView, UpdateResult};
use vstd::prelude::*;
use vstd::string::StringExecFns;
use vstd::utf8::encode_utf8;

verus! {

/// Where the pages of the fictions of Royal Road begin.
pub const ROYALROAD_FICTION: &'static str = "https://www.royalroad.com/fiction/";

/// Where the feeds of the fictions of Royal Road begin.
pub const ROYALROAD_SYNDICATION: &'static str = "https://www.royalroad.com/fiction/syndication/";

/// Something that can produce and refresh the archive of a web novel.
pub trait WebnovelProvider {
    /// The title to show for the book at `path`.
    fn get_title(&self, path: &str) -> String;

    /// Creates the archive of the book at `url` in the directory `dir`, under
    /// `filename` where one is given, and hands back the title of the book.
    fn create(&self, dir: &str, filename: Option<&str>, url: &str) -> Result<String, Failure>;

    /// Brings the archive at `path` up to date.
    fn update(&self, path: &str) -> UpdateResult;
}

/// The answer for a book that no source handles.
#[derive(Debug)]
pub struct Unsupported {
    pub message: String,
}

impl Unsupported {
    /// The answer for a URL that no source handles.
    pub fn from_url(url: &str) -> (r: Unsupported)
        ensures
            r.message@ == "Unsupported url ("@ + url@ + ")"@,
    {
        let mut message = String::from_str("Unsupported url (");
        message.append(url);
        message.append(")");
        Unsupported { message }
    }

    /// The answer for a file that carries no URL of a source.
    pub fn from_path(path: &str) -> (r: Unsupported)
        ensures
            r.message@ == "Path does not lead to an e-book with a supported url ("@ + path@ + ")"@,
    {
        let mut message = String::from_str("Path does not lead to an e-book with a supported url (");
        message.append(path);
        message.append(")");
        Unsupported { message }
    }
}

impl WebnovelProvider for Unsupported {
    fn get_title(&self, path: &str) -> (r: String)
        ensures
            r@ == self.message@,
    {
        self.message.clone()
    }

    fn create(&self, dir: &str, filename: Option<&str>, url: &str) -> (r: Result<String, Failure>)
        ensures
            r matches Err(Failure::Unsupported { message }) && message@ == self.message@,
    {
        Err(Failure::Unsupported { message: self.message.clone() })
    }

    fn update(&self, path: &str) -> (r: UpdateResult)
        ensures
            r is Unsupported,
    {
        UpdateResult::Unsupported
    }
}

/// What the feed of a fiction on Royal Road says of it.
#[derive(Debug)]
pub struct RoyalRoad {
    pub title: String,
    pub url: String,
    pub last_time_published: Timestamp,
}

/// Some chapter of `chapters` is dated at `instant` or later.
pub open spec fn reaches(chapters: Seq<ChapterView>, instant: Timestamp) -> bool {
    exists|i: int|
        0 <= i < chapters.len() && !instant.after((#[trigger] chapters[i]).date_published)
}

impl RoyalRoad {
    /// The URL of the feed of the fiction at `fiction_url`.
    pub open spec fn feed_url(fiction_url: Seq<char>) -> Option<Seq<char>> {
        if ROYALROAD_FICTION@.is_prefix_of(fiction_url) {
            Some(replaced(fiction_url, ROYALROAD_FICTION@, ROYALROAD_SYNDICATION@))
        } else {
            None
        }
    }

    /// The URL of the feed of the fiction at `fiction_url`; `None` where the
    /// URL is not that of a fiction on Royal Road.
    pub fn syndication_url(fiction_url: &str) -> (r: Option<String>)
        ensures
            opt_view(r) == RoyalRoad::feed_url(fiction_url@),
    {
        let chars = chars_of(fiction_url);
        let fiction = chars_of(ROYALROAD_FICTION);
        if !starts_with(chars.as_slice(), fiction.as_slice()) {
            return None;
        }
        let feed = chars_of(ROYALROAD_SYNDICATION);
        let out = replace(chars.as_slice(), fiction.as_slice(), feed.as_slice());
        Some(text_of(out.as_slice()))
    }

    /// The source for the fiction at `fiction_url`, from the title and the
    /// latest date that its feed shows; `None` where the URL is not that of a
    /// fiction on Royal Road, or the feed lacks either of the two.
    pub fn new(fiction_url: &str, title: Option<String>, last_time_published: Option<Timestamp>) -> (r:
        Option<RoyalRoad>)
        ensures
            r is Some <==> ROYALROAD_FICTION@.is_prefix_of(fiction_url@) && title is Some
                && last_time_published is Some,
            r matches Some(source) ==> source.title@ == title->0@ && source.url@ == fiction_url@
                && source.last_time_published == last_time_published->0,
    {
        let chars = chars_of(fiction_url);
        let fiction = chars_of(ROYALROAD_FICTION);
        if !starts_with(chars.as_slice(), fiction.as_slice()) {
            return None;
        }
        match (title, last_time_published) {
            (Some(title), Some(last_time_published)) => Some(
                RoyalRoad { title, url: fiction_url.to_owned(), last_time_published },
            ),
            _ => None,
        }
    }

    /// Whether the book already holds everything the feed shows: whether one
    /// of its chapters is dated at the latest date of the feed, or later.
    pub fn already_up_to_date(&self, current_book: Option<&Book>) -> (r: bool)
        ensures
            r <==> (current_book matches Some(book) && reaches(
                book@.chapters,
                self.last_time_published,
            )),
    {
        match current_book {
            Some(book) => {
                let mut i: usize = 0;
                while i < book.chapters.len()
                    invariant
                        i <= book.chapters@.len(),
                        current_book == Some(book),
                        forall|k: int|
                            0 <= k < i ==> self.last_time_published.after(
                                (#[trigger] chapter_views(book.chapters@)[k]).date_published,
                            ),
                    decreases book.chapters@.len() - i,
                {
                    if !self.last_time_published.is_after(&book.chapters[i].date_published) {
                        assert(book@.chapters[i as int].date_published
                            == book.chapters@[i as int].date_published);
                        return true;
                    }
                    i = i + 1;
                }
                false
            },
            None => false,
        }
    }
}

/// One entry of the chapter index that a page of Royal Road carries.
#[derive(Debug)]
pub struct RoyalRoadChapter {
    pub id: u32,
    pub order: u32,
    pub date: Timestamp,
    pub title: String,
    pub url: String,
}

/// Where the site of Royal Road lies.
pub const ROYALROAD: &'static str = "https://www.royalroad.com";

impl RoyalRoadChapter {
    /// The chapter that this entry stands for: identified by the number of
    /// the entry, found at the path of the entry on the site, and without
    /// content yet.
    pub fn to_chapter(&self) -> (r: Chapter)
        ensures
            r@ == (ChapterView {
                identifier: decimal(self.id as nat),
                date_published: self.date,
                title: self.title@,
                url: ROYALROAD@ + self.url@,
                content: None,
                authors_note_start: None,
                authors_note_end: None,
            }),
    {
        let mut url = String::from_str(ROYALROAD);
        url.append(self.url.as_str());
        Chapter {
            identifier: text_of(decimal_text(self.id as u64).as_slice()),
            date_published: self.date,
            title: self.title.clone(),
            url,
            content: None,
            authors_note_start: None,
            authors_note_end: None,
        }
    }
}

/// The elements that Royal Road hides in a chapter to mark copies.
pub const WATERMARK: &'static str = "[class^=cj],[class^=cm]";

/// The bytes that the inside of such an element holds at most; a longer
/// element of that class is text of the chapter.
pub const WATERMARK_LIMIT: usize = 200;

/// Where the page of a chapter holds the content of the chapter.
pub const CHAPTER_CONTENT: &'static str = ".chapter-inner.chapter-content";

/// Where the page of a chapter holds the note before the chapter.
pub const NOTE_BEFORE: &'static str = "hr + .portlet > .author-note";

/// Where the page of a chapter holds the note behind the chapter.
pub const NOTE_BEHIND: &'static str = "div + .portlet > .author-note";

/// The places, among the first `n` elements of the watermark classes, of
/// those whose inside is short enough to be a mark and no text of the
/// chapter: shorter than `WATERMARK_LIMIT` bytes. `inner` holds the insides
/// of the elements in document order.
pub open spec fn short_marks(inner: Seq<Seq<char>>, n: nat) -> Seq<usize>
    decreases n,
{
    if n == 0 {
        Seq::empty()
    } else {
        let before = short_marks(inner, (n - 1) as nat);
        if n - 1 < inner.len() && encode_utf8(inner[n - 1]).len() < WATERMARK_LIMIT {
            before.push((n - 1) as usize)
        } else {
            before
        }
    }
}

/// The insides of the elements that `selector` finds in the page `page` once
/// the marks of the page are taken out of it.
pub open spec fn without_warnings(page: Seq<char>, selector: Seq<char>) -> Option<Seq<Seq<char>>> {
    match selected_inner_html(page, WATERMARK@) {
        Some(marks) => selected_inner_html_without(
            page,
            WATERMARK@,
            short_marks(marks, marks.len()),
            selector,
        ),
        None => selected_inner_html(page, selector),
    }
}

/// The part of the page `page` that `selector` finds first, without the
/// marks of the page; `None` where the selector finds nothing, or nothing
/// is left.
pub open spec fn unmarked_part(page: Seq<char>, selector: Seq<char>) -> Option<Seq<char>> {
    first_non_empty(without_warnings(page, selector))
}

/// The places of the marks among the elements of the watermark classes,
/// whose insides are `inner`.
pub fn find_short_marks(inner: &Vec<String>) -> (r: Vec<usize>)
    ensures
        r@ == short_marks(texts(inner@), inner@.len()),
        forall|k: int| 0 <= k < r@.len() ==> (#[trigger] r@[k]) < inner@.len(),
{
    let mut marks: Vec<usize> = Vec::new();
    let mut i: usize = 0;
    while i < inner.len()
        invariant
            i <= inner@.len(),
            marks@ == short_marks(texts(inner@), i as nat),
            forall|k: int| 0 <= k < marks@.len() ==> (#[trigger] marks@[k]) < inner@.len(),
        decreases inner@.len() - i,
    {
        assert(texts(inner@)[i as int] == inner@[i as int]@);
        if inner[i].as_str().as_bytes().len() < WATERMARK_LIMIT {
            marks.push(i);
        }
        i = i + 1;
    }
    marks
}

/// Takes the marks out of the page `page` and hands back the insides of the
/// elements that `selector` then finds: every element of the watermark
/// classes whose inside is shorter than `WATERMARK_LIMIT` bytes leaves the
/// page.
pub fn remove_royal_road_warnings(page: &str, selector: &str) -> (r: Option<Vec<String>>)
    ensures
        opt_texts(r) == without_warnings(page@, selector@),
{
    match select_inner_html(page, WATERMARK) {
        Some(inner) => {
            let marks = find_short_marks(&inner);
            select_inner_html_without(page, WATERMARK, &marks, selector)
        },
        None => select_inner_html(page, selector),
    }
}

fn unmarked_part_of(page: &str, selector: &str) -> (r: Option<String>)
    ensures
        opt_view(r) == unmarked_part(page@, selector@),
{
    pick_first_non_empty(remove_royal_road_warnings(page, selector))
}

impl RoyalRoad {
    /// What the page of a chapter holds: the content of the chapter and the
    /// notes before and behind it, each without the marks of the page.
    pub fn read_chapter(page: &str) -> (r: ChapterContent)
        ensures
            r@ == (ChapterContentView {
                content: unmarked_part(page@, CHAPTER_CONTENT@),
                authors_note_start: unmarked_part(page@, NOTE_BEFORE@),
                authors_note_end: unmarked_part(page@, NOTE_BEHIND@),
            }),
    {
        ChapterContent {
            content: unmarked_part_of(page, CHAPTER_CONTENT),
            authors_note_start: unmarked_part_of(page, NOTE_BEFORE),
            authors_note_end: unmarked_part_of(page, NOTE_BEHIND),
        }
    }
}

/// What the feed of a fiction shows: its title and the date of its latest chapter.
#[derive(Debug)]
pub struct Feed {
    pub title: String,
    pub last_time_published: Timestamp,
}

/// The source that handles a book.
#[derive(Debug)]
pub enum Source {
    RoyalRoad(RoyalRoad),
    FanFicFare(FanFicFare),
    Unsupported(Unsupported),
}

/// The source that handles the book at `url`. `feed` is what the feed of the
/// fiction shows, where the caller could fetch one. Royal Road is tried
/// first, then the sites of the external updater; a URL that neither handles
/// is unsupported.
pub fn from_url(url: &str, feed: Option<Feed>) -> (r: Source)
    ensures
        r is RoyalRoad <==> ROYALROAD_FICTION@.is_prefix_of(url@) && feed is Some,
        r is FanFicFare <==> !(ROYALROAD_FICTION@.is_prefix_of(url@) && feed is Some)
            && names_known_site(url@),
        r matches Source::RoyalRoad(source) ==> source.url@ == url@ && source.title@
            == feed.unwrap().title@ && source.last_time_published
            == feed.unwrap().last_time_published,
        r matches Source::Unsupported(u) ==> u.message@ == "Unsupported url ("@ + url@ + ")"@,
{
    let (title, last) = match feed {
        Some(Feed { title, last_time_published }) => (Some(title), Some(last_time_published)),
        None => (None, None),
    };
    match RoyalRoad::new(url, title, last) {
        Some(source) => Source::RoyalRoad(source),
        None => match FanFicFare::new(url) {
            Some(updater) => Source::FanFicFare(updater),
            None => Source::Unsupported(Unsupported::from_url(url)),
        },
    }
}

/// The value of the first entry of `metadata` that is named `name`.
pub open spec fn first_named(metadata: Seq<(String, String)>, name: Seq<char>) -> Option<Seq<char>>
    decreases metadata.len(),
{
    if metadata.len() == 0 {
        None
    } else if metadata[0].0@ == name {
        Some(metadata[0].1@)
    } else {
        first_named(metadata.skip(1), name)
    }
}

/// The value of the first entry of `metadata` that is named `name`.
pub fn metadata_value(metadata: &Vec<(String, String)>, name: &str) -> (r: Option<String>)
    ensures
        opt_view(r) == first_named(metadata@, name@),
{
    let mut i: usize = 0;
    assert(metadata@.skip(0) == metadata@);
    while i < metadata.len()
        invariant
            i <= metadata@.len(),
            first_named(metadata@, name@) == first_named(metadata@.skip(i as int), name@),
        decreases metadata@.len() - i,
    {
        assert(metadata@.skip(i as int)[0] == metadata@[i as int]);
        assert(metadata@.skip(i as int).skip(1) == metadata@.skip(i + 1));
        if crate::text::same_text(metadata[i].0.as_str(), name) {
            return Some(metadata[i].1.clone());
        }
        i = i + 1;
    }
    None
}

/// The URL of the source of a book, as the metadata of its archive names
/// it under `source`.
pub fn get_url(metadata: &Vec<(String, String)>) -> (r: Option<String>)
    ensures
        opt_view(r) == first_named(metadata@, "source"@),
{
    metadata_value(metadata, "source")
}

/// The source that handles the archive at `path`, told from the metadata of
/// the archive. An archive that names no source is unsupported.
pub fn from_path(path: &str, metadata: &Vec<(String, String)>, feed: Option<Feed>) -> (r:
    Source)
    ensures
        first_named(metadata@, "source"@) is None ==> (r matches Source::Unsupported(u)
            && u.message@ == "Path does not lead to an e-book with a supported url ("@ + path@
            + ")"@),
        first_named(metadata@, "source"@) matches Some(url) ==> {
            &&& r is RoyalRoad <==> ROYALROAD_FICTION@.is_prefix_of(url) && feed is Some
            &&& r is FanFicFare <==> !(ROYALROAD_FICTION@.is_prefix_of(url) && feed is Some)
                && names_known_site(url)
            &&& r matches Source::RoyalRoad(source) ==> source.url@ == url
            &&& r matches Source::Unsupported(u) ==> u.message@ == "Unsupported url ("@ + url
                + ")"@
        },
{
    match get_url(metadata) {
        Some(url) => from_url(url.as_str(), feed),
        None => Source::Unsupported(Unsupported::from_path(path)),
    }
}

} // verus!
