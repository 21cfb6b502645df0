//! The in-memory model of a web novel: a book and its ordered chapters.

use crate::text::{clone_opt, opt_view};
use vstd::prelude::*;
use vstd::std_specs::cmp::PartialEqSpec;

verus! {

/// An instant in time: whole seconds since the Unix epoch, and the
/// nanoseconds that have passed within that second.
#[derive(Clone, Copy, Debug, PartialEq, Eq, Structural)]
pub struct Timestamp {
    pub secs: i64,
    pub nanos: u32,
}

impl Timestamp {
    /// `self` lies strictly later than `other`.
    pub open spec fn after(self, other: Timestamp) -> bool {
        self.secs > other.secs || (self.secs == other.secs && self.nanos > other.nanos)
    }

    /// Whether `self` lies strictly later than `other`.
    pub fn is_after(&self, other: &Timestamp) -> (r: bool)
        ensures
            r == self.after(*other),
    {
        self.secs > other.secs || (self.secs == other.secs && self.nanos > other.nanos)
    }
}

impl Default for Timestamp {
    /// The Unix epoch.
    fn default() -> (r: Timestamp)
        ensures
            r == (Timestamp { secs: 0, nanos: 0 }),
    {
        Timestamp { secs: 0, nanos: 0 }
    }
}

/// One chapter of a book. `content` is `None` while the chapter has not been
/// fetched, or when fetching it failed.
#[derive(Debug)]
pub struct Chapter {
    pub identifier: String,
    pub date_published: Timestamp,
    pub title: String,
    pub url: String,
    pub content: Option<String>,
    pub authors_note_start: Option<String>,
    pub authors_note_end: Option<String>,
}

/// The mathematical value of a [`Chapter`].
pub struct ChapterView {
    pub identifier: Seq<char>,
    pub date_published: Timestamp,
    pub title: Seq<char>,
    pub url: Seq<char>,
    pub content: Option<Seq<char>>,
    pub authors_note_start: Option<Seq<char>>,
    pub authors_note_end: Option<Seq<char>>,
}

impl View for Chapter {
    type V = ChapterView;

    open spec fn view(&self) -> ChapterView {
        ChapterView {
            identifier: self.identifier@,
            date_published: self.date_published,
            title: self.title@,
            url: self.url@,
            content: opt_view(self.content),
            authors_note_start: opt_view(self.authors_note_start),
            authors_note_end: opt_view(self.authors_note_end),
        }
    }
}

impl Clone for Chapter {
    fn clone(&self) -> (r: Chapter)
        ensures
            r@ == self@,
    {
        Chapter {
            identifier: self.identifier.clone(),
            date_published: self.date_published,
            title: self.title.clone(),
            url: self.url.clone(),
            content: clone_opt(&self.content),
            authors_note_start: clone_opt(&self.authors_note_start),
            authors_note_end: clone_opt(&self.authors_note_end),
        }
    }
}

impl Default for Chapter {
    /// A chapter with empty texts, no content, published at the epoch.
    fn default() -> (r: Chapter)
        ensures
            r@ == (ChapterView {
                identifier: Seq::<char>::empty(),
                date_published: Timestamp { secs: 0, nanos: 0 },
                title: Seq::<char>::empty(),
                url: Seq::<char>::empty(),
                content: None,
                authors_note_start: None,
                authors_note_end: None,
            }),
    {
        Chapter {
            identifier: String::new(),
            date_published: Timestamp { secs: 0, nanos: 0 },
            title: String::new(),
            url: String::new(),
            content: None,
            authors_note_start: None,
            authors_note_end: None,
        }
    }
}

impl PartialEq for Chapter {
    /// Two chapters are the same chapter when their identifiers are equal.
    fn eq(&self, other: &Chapter) -> (r: bool) {
        self.identifier == other.identifier
    }
}

impl Eq for Chapter {

}

impl vstd::std_specs::cmp::PartialEqSpecImpl for Chapter {
    open spec fn obeys_eq_spec() -> bool {
        true
    }

    open spec fn eq_spec(&self, other: &Chapter) -> bool {
        self.identifier@ == other.identifier@
    }
}

/// The values of a list of chapters, in order.
pub open spec fn chapter_views(chapters: Seq<Chapter>) -> Seq<ChapterView> {
    chapters.map_values(|c: Chapter| c@)
}

/// Appending a chapter appends its value.
pub proof fn lemma_chapter_views_push(chapters: Seq<Chapter>, c: Chapter)
    ensures
        chapter_views(chapters.push(c)) == chapter_views(chapters).push(c@),
{
    assert(chapter_views(chapters.push(c)) =~= chapter_views(chapters).push(c@));
}

/// A book: its metadata and its chapters in reading order.
#[derive(Debug)]
pub struct Book {
    pub id: String,
    pub url: String,
    pub title: String,
    pub author: String,
    pub description: String,
    pub date_published: Timestamp,
    pub cover_url: String,
    pub chapters: Vec<Chapter>,
}

/// The mathematical value of a [`Book`].
pub struct BookView {
    pub id: Seq<char>,
    pub url: Seq<char>,
    pub title: Seq<char>,
    pub author: Seq<char>,
    pub description: Seq<char>,
    pub date_published: Timestamp,
    pub cover_url: Seq<char>,
    pub chapters: Seq<ChapterView>,
}

impl View for Book {
    type V = BookView;

    open spec fn view(&self) -> BookView {
        BookView {
            id: self.id@,
            url: self.url@,
            title: self.title@,
            author: self.author@,
            description: self.description@,
            date_published: self.date_published,
            cover_url: self.cover_url@,
            chapters: chapter_views(self.chapters@),
        }
    }
}

/// A copy of a list of chapters.
pub fn clone_chapters(chapters: &Vec<Chapter>) -> (r: Vec<Chapter>)
    ensures
        chapter_views(r@) == chapter_views(chapters@),
{
    let mut out: Vec<Chapter> = Vec::new();
    let mut i: usize = 0;
    while i < chapters.len()
        invariant
            i <= chapters@.len(),
            chapter_views(out@) == chapter_views(chapters@.take(i as int)),
        decreases chapters@.len() - i,
    {
        let ghost before = out@;
        let c = chapters[i].clone();
        out.push(c);
        proof {
            lemma_chapter_views_push(before, c);
            lemma_chapter_views_push(chapters@.take(i as int), chapters@[i as int]);
            assert(chapters@.take(i + 1) == chapters@.take(i as int).push(chapters@[i as int]));
        }
        i = i + 1;
    }
    assert(chapters@.take(chapters@.len() as int) == chapters@);
    out
}

impl Clone for Book {
    fn clone(&self) -> (r: Book)
        ensures
            r@ == self@,
    {
        Book {
            id: self.id.clone(),
            url: self.url.clone(),
            title: self.title.clone(),
            author: self.author.clone(),
            description: self.description.clone(),
            date_published: self.date_published,
            cover_url: self.cover_url.clone(),
            chapters: clone_chapters(&self.chapters),
        }
    }
}

impl Default for Book {
    /// A book with empty texts and no chapters, published at the epoch.
    fn default() -> (r: Book)
        ensures
            r@ == (BookView {
                id: Seq::<char>::empty(),
                url: Seq::<char>::empty(),
                title: Seq::<char>::empty(),
                author: Seq::<char>::empty(),
                description: Seq::<char>::empty(),
                date_published: Timestamp { secs: 0, nanos: 0 },
                cover_url: Seq::<char>::empty(),
                chapters: Seq::<ChapterView>::empty(),
            }),
    {
        let r = Book {
            id: String::new(),
            url: String::new(),
            title: String::new(),
            author: String::new(),
            description: String::new(),
            date_published: Timestamp { secs: 0, nanos: 0 },
            cover_url: String::new(),
            chapters: Vec::new(),
        };
        assert(chapter_views(r.chapters@) =~= Seq::<ChapterView>::empty());
        r
    }
}

impl Book {
    /// The book's metadata with an empty chapter list.
    pub fn clone_without_chapters(&self) -> (r: Book)
        ensures
            r@ == (BookView { chapters: Seq::<ChapterView>::empty(), ..self@ }),
    {
        let r = Book {
            id: self.id.clone(),
            url: self.url.clone(),
            title: self.title.clone(),
            author: self.author.clone(),
            description: self.description.clone(),
            date_published: self.date_published,
            cover_url: self.cover_url.clone(),
            chapters: Vec::new(),
        };
        assert(chapter_views(r.chapters@) =~= Seq::<ChapterView>::empty());
        r
    }
}

/// Chapters are compared by identifier alone: two chapters with the same
/// identifier are equal whatever their content, dates, titles or notes.
pub proof fn lemma_chapter_equality_is_by_identifier(a: Chapter, b: Chapter)
    ensures
        a.eq_spec(&b) <==> a@.identifier == b@.identifier,
        a@.identifier == b@.identifier ==> a.eq_spec(&b) && b.eq_spec(&a),
{
}

} // verus!
