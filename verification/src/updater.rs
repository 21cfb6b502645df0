//! The incremental sync: reconciling a freshly fetched chapter index with
//! the chapters a book already holds, and fetching only what changed.

use crate::book::{chapter_views, lemma_chapter_views_push, Book, BookView, Chapter, ChapterView};
use crate::failure::Failure;
use crate::text::{lemma_texts_push, opt_view, same_text, texts};
use vstd::prelude::*;
use vstd::std_specs::iter::IteratorSpec;

verus! {

/// How one sync call ended.
#[derive(Debug)]
pub enum UpdateResult {
    /// No source handles the book.
    Unsupported,
    /// Nothing changed remotely.
    UpToDate,
    /// This many chapters were new or had moved forward in time.
    Updated(u16),
    /// The external updater left the book alone.
    Skipped,
    /// The book holds this many chapters more than its source.
    MoreChapterThanSource(u16),
    /// The sync of this book failed.
    Error(Failure),
}

impl UpdateResult {
    /// Whether the archive has to be written again after a sync that ended
    /// like this: only when chapters were updated.
    pub fn requires_write(&self) -> (r: bool)
        ensures
            r == (*self is Updated),
    {
        match self {
            UpdateResult::Updated(_) => true,
            _ => false,
        }
    }
}

impl From<Result<UpdateResult, Failure>> for UpdateResult {
    /// A failed sync becomes `UpdateResult::Error`; a finished one stays as it is.
    fn from(value: Result<UpdateResult, Failure>) -> (r: UpdateResult) {
        match value {
            Ok(v) => v,
            Err(error) => UpdateResult::Error(error),
        }
    }
}

impl vstd::std_specs::convert::FromSpecImpl<Result<UpdateResult, Failure>> for UpdateResult {
    open spec fn obeys_from_spec() -> bool {
        true
    }

    open spec fn from_spec(value: Result<UpdateResult, Failure>) -> UpdateResult {
        match value {
            Ok(v) => v,
            Err(error) => UpdateResult::Error(error),
        }
    }
}

/// What a source hands back for one chapter.
#[derive(Debug)]
pub struct ChapterContent {
    pub content: Option<String>,
    pub authors_note_start: Option<String>,
    pub authors_note_end: Option<String>,
}

/// The mathematical value of a [`ChapterContent`].
pub struct ChapterContentView {
    pub content: Option<Seq<char>>,
    pub authors_note_start: Option<Seq<char>>,
    pub authors_note_end: Option<Seq<char>>,
}

impl View for ChapterContent {
    type V = ChapterContentView;

    open spec fn view(&self) -> ChapterContentView {
        ChapterContentView {
            content: opt_view(self.content),
            authors_note_start: opt_view(self.authors_note_start),
            authors_note_end: opt_view(self.authors_note_end),
        }
    }
}

/// A remote site that publishes a book chapter by chapter.
pub trait WebnovelSource {
    /// The title to show for the book at `path`.
    fn get_title(&self, path: &str) -> String;

    /// The URL of the book.
    fn get_url(&self) -> String;

    /// Whether `current_book` already holds everything the site shows, so
    /// that nothing has to be fetched.
    fn already_up_to_date(&self, current_book: Option<&Book>) -> bool;

    /// The book's metadata and its chapters, each without content.
    fn fetch_without_chapter_content(&self) -> Result<Book, Failure>;

    /// The content and author's notes of one chapter.
    fn update_chapter_content(&self, chapter: &Chapter) -> Result<ChapterContent, Failure>;
}

/// Some chapter of `chapters` has the identifier `id`.
pub open spec fn knows(chapters: Seq<ChapterView>, id: Seq<char>) -> bool {
    exists|i: int| 0 <= i < chapters.len() && (#[trigger] chapters[i]).identifier == id
}

/// `fetched` is a chapter that `current` holds with an earlier date.
pub open spec fn advanced(fetched: ChapterView, current: Seq<ChapterView>) -> bool {
    exists|i: int|
        0 <= i < current.len() && (#[trigger] current[i]).identifier == fetched.identifier
            && fetched.date_published.after(current[i].date_published)
}

/// `fetched` has to be fetched: `current` lacks it, or holds it with an earlier date.
pub open spec fn stale(fetched: ChapterView, current: Seq<ChapterView>) -> bool {
    advanced(fetched, current) || !knows(current, fetched.identifier)
}

/// The chapters of `fetched` that `current` lacks, in the order of `fetched`.
pub open spec fn new_chapters(fetched: Seq<ChapterView>, current: Seq<ChapterView>) -> Seq<
    ChapterView,
> {
    fetched.filter(|c: ChapterView| !knows(current, c.identifier))
}

/// The chapters of `fetched` that `current` holds with an earlier date.
pub open spec fn advanced_chapters(fetched: Seq<ChapterView>, current: Seq<ChapterView>) -> Seq<
    ChapterView,
> {
    fetched.filter(|c: ChapterView| advanced(c, current))
}

/// `id` is the identifier of a chapter of `fetched` that has to be fetched.
pub open spec fn needs_refresh(
    fetched: Seq<ChapterView>,
    current: Seq<ChapterView>,
    id: Seq<char>,
) -> bool {
    exists|i: int|
        0 <= i < fetched.len() && (#[trigger] fetched[i]).identifier == id && stale(
            fetched[i],
            current,
        )
}

/// The identifiers of the chapters to fetch.
pub open spec fn refresh_ids(fetched: Seq<ChapterView>, current: Seq<ChapterView>) -> Set<
    Seq<char>,
> {
    Set::new(|id: Seq<char>| needs_refresh(fetched, current, id))
}

/// The chapter list after the new chapters of `fetched` have been appended.
pub open spec fn merged(fetched: Seq<ChapterView>, current: Seq<ChapterView>) -> Seq<
    ChapterView,
> {
    current + new_chapters(fetched, current)
}

/// Whether `chapters` holds `chapter`, as chapters are compared: by identifier.
pub fn contains_chapter(chapters: &Vec<Chapter>, chapter: &Chapter) -> (r: bool)
    ensures
        r == knows(chapter_views(chapters@), chapter@.identifier),
{
    let mut i: usize = 0;
    while i < chapters.len()
        invariant
            i <= chapters@.len(),
            forall|k: int|
                0 <= k < i ==> (#[trigger] chapter_views(chapters@)[k]).identifier
                    != chapter@.identifier,
        decreases chapters@.len() - i,
    {
        if chapters[i] == *chapter {
            assert(chapter_views(chapters@)[i as int].identifier == chapter@.identifier);
            return true;
        }
        i = i + 1;
    }
    false
}

/// Whether `current` holds the chapter `fetched` with an earlier date.
pub fn is_advanced(fetched: &Chapter, current: &Vec<Chapter>) -> (r: bool)
    ensures
        r == advanced(fetched@, chapter_views(current@)),
{
    let mut i: usize = 0;
    while i < current.len()
        invariant
            i <= current@.len(),
            forall|k: int|
                0 <= k < i ==> !((#[trigger] chapter_views(current@)[k]).identifier
                    == fetched@.identifier && fetched@.date_published.after(
                    chapter_views(current@)[k].date_published,
                )),
        decreases current@.len() - i,
    {
        if current[i].identifier == fetched.identifier && fetched.date_published.is_after(
            &current[i].date_published,
        ) {
            assert(chapter_views(current@)[i as int].identifier == fetched@.identifier);
            return true;
        }
        i = i + 1;
    }
    false
}

/// Whether `id` is one of `ids`.
pub fn is_listed(ids: &Vec<String>, id: &str) -> (r: bool)
    ensures
        r == texts(ids@).contains(id@),
{
    let mut i: usize = 0;
    while i < ids.len()
        invariant
            i <= ids@.len(),
            forall|k: int| 0 <= k < i ==> (#[trigger] texts(ids@)[k]) != id@,
        decreases ids@.len() - i,
    {
        if same_text(ids[i].as_str(), id) {
            assert(texts(ids@)[i as int] == id@);
            return true;
        }
        i = i + 1;
    }
    false
}

/// What a sync pass has decided before any chapter is fetched.
#[derive(Debug)]
pub struct SyncPlan {
    /// The book as it stood, with the new chapters appended and the cover refreshed.
    pub book: Book,
    /// The identifiers of the chapters to fetch, none of them twice.
    pub to_refresh: Vec<String>,
    /// How many identifiers `to_refresh` holds.
    pub count: u16,
}

impl SyncPlan {
    /// The plan is in order: no identifier is listed twice, and the count is
    /// the number of identifiers.
    pub open spec fn wf(&self) -> bool {
        texts(self.to_refresh@).no_duplicates() && self.count == self.to_refresh@.len()
    }
}

/// The value of the book that a sync starts from, if there is one.
pub open spec fn opt_book_view(book: Option<Book>) -> Option<BookView> {
    match book {
        Some(b) => Some(b@),
        None => None,
    }
}

/// The state that a sync reconciles the fetched index with: the book as it
/// stood, or the fetched metadata without chapters where there was none.
pub open spec fn sync_base(fetched: BookView, current: Option<BookView>) -> BookView {
    match current {
        Some(b) => b,
        None => BookView { chapters: Seq::<ChapterView>::empty(), ..fetched },
    }
}

/// The book that a sync plans on: the new chapters behind those of `base`, in
/// the order of the fetched index, and the cover of the fetched index.
pub open spec fn planned_book(fetched: BookView, base: BookView) -> BookView {
    BookView {
        chapters: merged(fetched.chapters, base.chapters),
        cover_url: fetched.cover_url,
        ..base
    }
}

/// The views of a concatenation are the concatenation of the views.
pub proof fn lemma_chapter_views_add(a: Seq<Chapter>, b: Seq<Chapter>)
    ensures
        chapter_views(a + b) == chapter_views(a) + chapter_views(b),
{
    assert(chapter_views(a + b) =~= chapter_views(a) + chapter_views(b));
}

proof fn lemma_needs_refresh_step(
    fetched: Seq<ChapterView>,
    current: Seq<ChapterView>,
    i: int,
    id: Seq<char>,
)
    requires
        0 <= i < fetched.len(),
    ensures
        needs_refresh(fetched.take(i + 1), current, id) <==> (needs_refresh(
            fetched.take(i),
            current,
            id,
        ) || (fetched[i].identifier == id && stale(fetched[i], current))),
{
    let short = fetched.take(i);
    let long = fetched.take(i + 1);
    if needs_refresh(long, current, id) {
        let k = choose|k: int|
            0 <= k < long.len() && (#[trigger] long[k]).identifier == id && stale(long[k], current);
        if k < i {
            assert(short[k] == long[k]);
        } else {
            assert(long[k] == fetched[i]);
        }
    }
    if needs_refresh(short, current, id) {
        let k = choose|k: int|
            0 <= k < short.len() && (#[trigger] short[k]).identifier == id && stale(
                short[k],
                current,
            );
        assert(long[k] == short[k]);
    }
    if fetched[i].identifier == id && stale(fetched[i], current) {
        assert(long[i] == fetched[i]);
    }
}

/// The number of chapters to fetch as a 16-bit count. Fails with
/// `CountOverflow` where the number does not fit.
pub fn checked_count(number: usize) -> (r: Result<u16, Failure>)
    ensures
        match r {
            Ok(count) => count == number,
            Err(e) => number > u16::MAX && e is CountOverflow,
        },
{
    if number > 65535 {
        Err(Failure::CountOverflow)
    } else {
        Ok(number as u16)
    }
}

/// Decides what a sync pass has to do: which chapters of the fetched index
/// are new, which identifiers have to be fetched, and how many they are. Fails
/// when they are more than a 16-bit count can hold.
pub fn plan_sync(fetched: Book, current: Option<Book>) -> (r: Result<SyncPlan, Failure>)
    ensures
        refresh_ids(
            fetched@.chapters,
            sync_base(fetched@, opt_book_view(current)).chapters,
        ).finite(),
        r is Ok <==> refresh_ids(
            fetched@.chapters,
            sync_base(fetched@, opt_book_view(current)).chapters,
        ).len() <= u16::MAX,
        r matches Err(e) ==> e is CountOverflow,
        r matches Ok(plan) ==> {
            &&& plan.wf()
            &&& plan.book@ == planned_book(fetched@, sync_base(fetched@, opt_book_view(current)))
            &&& texts(plan.to_refresh@).to_set() == refresh_ids(
                fetched@.chapters,
                sync_base(fetched@, opt_book_view(current)).chapters,
            )
        },
{
    let ghost base = sync_base(fetched@, opt_book_view(current));
    let mut book = match current {
        Some(b) => b,
        None => fetched.clone_without_chapters(),
    };
    assert(book@ == base);
    let ghost remote = fetched@.chapters;
    let mut to_refresh: Vec<String> = Vec::new();
    let mut fresh: Vec<Chapter> = Vec::new();
    let mut i: usize = 0;
    proof {
        reveal(Seq::filter);
        assert(remote.take(0).len() == 0);
        assert(chapter_views(fresh@) =~= new_chapters(remote.take(0), base.chapters));
    }
    while i < fetched.chapters.len()
        invariant
            i <= fetched.chapters@.len(),
            remote == chapter_views(fetched.chapters@),
            book@ == base,
            chapter_views(fresh@) == new_chapters(remote.take(i as int), base.chapters),
            texts(to_refresh@).no_duplicates(),
            forall|id: Seq<char>| #[trigger]
                texts(to_refresh@).contains(id) <==> needs_refresh(
                    remote.take(i as int),
                    base.chapters,
                    id,
                ),
        decreases fetched.chapters@.len() - i,
    {
        let c = &fetched.chapters[i];
        let ghost cv = remote[i as int];
        assert(cv == c@);
        let known = contains_chapter(&book.chapters, c);
        let moved = is_advanced(c, &book.chapters);
        proof {
            assert(remote.take(i + 1) == remote.take(i as int).push(cv));
            remote.take(i as int).lemma_filter_push(
                cv,
                |c: ChapterView| !knows(base.chapters, c.identifier),
            );
            assert forall|id: Seq<char>|
                needs_refresh(remote.take(i + 1), base.chapters, id) <==> (needs_refresh(
                    remote.take(i as int),
                    base.chapters,
                    id,
                ) || (cv.identifier == id && stale(cv, base.chapters))) by {
                lemma_needs_refresh_step(remote, base.chapters, i as int, id);
            }
        }
        if !known {
            let ghost before = fresh@;
            let copy = c.clone();
            fresh.push(copy);
            proof {
                lemma_chapter_views_push(before, copy);
            }
        }
        if (moved || !known) && !is_listed(&to_refresh, c.identifier.as_str()) {
            let ghost before = to_refresh@;
            let id = c.identifier.clone();
            to_refresh.push(id);
            proof {
                lemma_texts_push(before, id);
                assert forall|t: Seq<char>| #[trigger]
                    texts(to_refresh@).contains(t) <==> (texts(before).contains(t) || t
                        == cv.identifier) by {
                    if texts(before).contains(t) {
                        let k = choose|k: int| 0 <= k < texts(before).len() && texts(before)[k] == t;
                        assert(texts(to_refresh@)[k] == t);
                    }
                    if t == cv.identifier {
                        assert(texts(to_refresh@)[before.len() as int] == t);
                    }
                }
            }
        }
        i = i + 1;
    }
    proof {
        assert(remote.take(remote.len() as int) == remote);
        vstd::seq_lib::seq_to_set_is_finite(texts(to_refresh@));
        assert(texts(to_refresh@).to_set() =~= refresh_ids(remote, base.chapters));
        texts(to_refresh@).unique_seq_to_set();
    }
    let count = match checked_count(to_refresh.len()) {
        Ok(count) => count,
        Err(e) => {
            return Err(e);
        },
    };
    let ghost old_chapters = book.chapters@;
    let ghost new_part = fresh@;
    book.chapters.append(&mut fresh);
    book.cover_url = fetched.cover_url;
    proof {
        lemma_chapter_views_add(old_chapters, new_part);
    }
    Ok(SyncPlan { book, to_refresh, count })
}


/// A chapter after an attempt to fetch it: with what the source handed back,
/// or without content where the attempt failed.
pub open spec fn with_fetched(c: ChapterView, fetched: Option<ChapterContentView>) -> ChapterView {
    match fetched {
        Some(f) => ChapterView {
            content: f.content,
            authors_note_start: f.authors_note_start,
            authors_note_end: f.authors_note_end,
            ..c
        },
        None => ChapterView { content: None, ..c },
    }
}

/// What came back from a source for one chapter, if anything did.
pub open spec fn fetched_view(outcome: Result<ChapterContent, Failure>) -> Option<
    ChapterContentView,
> {
    match outcome {
        Ok(f) => Some(f@),
        Err(_) => None,
    }
}

/// A chapter that could not be fetched, and why.
#[derive(Debug)]
pub struct ChapterFailure {
    pub title: String,
    pub error: Failure,
}

impl Chapter {
    /// Records the outcome of fetching this chapter. A failure leaves the
    /// chapter without content and is handed back for reporting.
    pub fn record_fetched(&mut self, outcome: Result<ChapterContent, Failure>) -> (r: Option<
        ChapterFailure,
    >)
        ensures
            final(self)@ == with_fetched(old(self)@, fetched_view(outcome)),
            r is Some <==> outcome is Err,
            r matches Some(f) ==> f.title@ == old(self)@.title && Err::<ChapterContent, Failure>(
                f.error,
            ) == outcome,
    {
        match outcome {
            Ok(f) => {
                self.content = f.content;
                self.authors_note_start = f.authors_note_start;
                self.authors_note_end = f.authors_note_end;
                None
            },
            Err(error) => {
                self.content = None;
                Some(ChapterFailure { title: self.title.clone(), error })
            },
        }
    }
}

/// The chapters that hold content, in order.
pub open spec fn with_content(chapters: Seq<ChapterView>) -> Seq<ChapterView> {
    chapters.filter(|c: ChapterView| c.content is Some)
}

/// How a sync that found `count` chapters to fetch ends.
pub open spec fn sync_result(count: u16) -> UpdateResult {
    if count > 0 {
        UpdateResult::Updated(count)
    } else {
        UpdateResult::UpToDate
    }
}

/// Drops the chapters that hold no content.
pub fn drop_empty_chapters(chapters: Vec<Chapter>) -> (r: Vec<Chapter>)
    ensures
        chapter_views(r@) == with_content(chapter_views(chapters@)),
{
    let ghost all = chapters@;
    let mut out: Vec<Chapter> = Vec::new();
    proof {
        reveal(Seq::filter);
        assert(chapter_views(all.take(0)).len() == 0);
        assert(chapter_views(out@) =~= with_content(chapter_views(all.take(0))));
    }
    for c in it: chapters
        invariant
            it.seq() == all,
            chapter_views(out@) == with_content(chapter_views(all.take(it.index()))),
    {
        proof {
            let k = it.index();
            assert(all.take(k + 1) == all.take(k).push(c));
            lemma_chapter_views_push(all.take(k), c);
            chapter_views(all.take(k)).lemma_filter_push(c@, |c: ChapterView| c.content is Some);
        }
        if c.content.is_some() {
            let ghost before = out@;
            out.push(c);
            proof {
                lemma_chapter_views_push(before, c);
            }
        }
    }
    assert(all.take(all.len() as int) == all);
    out
}

/// Ends a sync pass: the chapters without content leave the book, and the
/// count of chapters that had to be fetched decides the result.
pub fn finish_sync(plan: SyncPlan) -> (r: (Book, UpdateResult))
    ensures
        r.0@ == (BookView { chapters: with_content(plan.book@.chapters), ..plan.book@ }),
        r.1 == sync_result(plan.count),
{
    let SyncPlan { book, to_refresh, count } = plan;
    let Book { id, url, title, author, description, date_published, cover_url, chapters } = book;
    let kept = drop_empty_chapters(chapters);
    let book = Book {
        id,
        url,
        title,
        author,
        description,
        date_published,
        cover_url,
        chapters: kept,
    };
    let result = if count > 0 {
        UpdateResult::Updated(count)
    } else {
        UpdateResult::UpToDate
    };
    (book, result)
}


/// `after` is the chapter `before`, possibly with other content and notes.
pub open spec fn same_chapter(before: ChapterView, after: ChapterView) -> bool {
    &&& after.identifier == before.identifier
    &&& after.date_published == before.date_published
    &&& after.title == before.title
    &&& after.url == before.url
}

/// `after` is what `before` may have become once the chapters whose
/// identifier is one of `ids` have been asked of a source: those chapters
/// keep their place and identity, all others are untouched.
pub open spec fn refreshed(
    before: Seq<ChapterView>,
    after: Seq<ChapterView>,
    ids: Seq<Seq<char>>,
) -> bool {
    &&& after.len() == before.len()
    &&& forall|i: int|
        0 <= i < before.len() ==> same_chapter(before[i], #[trigger] after[i]) && (!ids.contains(
            before[i].identifier,
        ) ==> after[i] == before[i])
}

/// Some chapter of `chapters` is titled `title` and has an identifier that is
/// one of `ids`.
pub open spec fn titles_listed_chapter(
    chapters: Seq<ChapterView>,
    ids: Seq<Seq<char>>,
    title: Seq<char>,
) -> bool {
    exists|i: int|
        0 <= i < chapters.len() && ids.contains((#[trigger] chapters[i]).identifier)
            && chapters[i].title == title
}

/// Some chapter of `before` is titled `title` and has an identifier that is
/// one of `ids`, and the chapter at its place in `after` holds no content.
pub open spec fn names_failed_chapter(
    before: Seq<ChapterView>,
    after: Seq<ChapterView>,
    ids: Seq<Seq<char>>,
    title: Seq<char>,
) -> bool {
    exists|i: int|
        0 <= i < before.len() && i < after.len() && ids.contains(
            (#[trigger] before[i]).identifier,
        ) && before[i].title == title && after[i].content is None
}

/// No chapter of `chapters` has an identifier that is one of `ids`.
pub open spec fn none_listed(chapters: Seq<ChapterView>, ids: Seq<Seq<char>>) -> bool {
    forall|i: int| 0 <= i < chapters.len() ==> !ids.contains((#[trigger] chapters[i]).identifier)
}

/// Asks `source` for every chapter whose identifier is one of `ids`, in the
/// order of `chapters`, and records what comes back. A chapter that fails is
/// left without content and listed among the failures; the others are not
/// affected by it. Every failure carries the title of a chapter that was
/// asked for and is left without content, and there is none where no chapter
/// was asked for.
pub fn refresh_chapters<S: WebnovelSource>(source: &S, chapters: Vec<Chapter>, ids: &Vec<String>) -> (r:
    (Vec<Chapter>, Vec<ChapterFailure>))
    ensures
        refreshed(chapter_views(chapters@), chapter_views(r.0@), texts(ids@)),
        r.1@.len() <= chapters@.len(),
        none_listed(chapter_views(chapters@), texts(ids@)) ==> r.1@.len() == 0,
        forall|k: int|
            0 <= k < r.1@.len() ==> titles_listed_chapter(
                chapter_views(chapters@),
                texts(ids@),
                (#[trigger] r.1@[k]).title@,
            ),
        forall|k: int|
            0 <= k < r.1@.len() ==> names_failed_chapter(
                chapter_views(chapters@),
                chapter_views(r.0@),
                texts(ids@),
                (#[trigger] r.1@[k]).title@,
            ),
{
    let ghost all = chapters@;
    let mut out: Vec<Chapter> = Vec::new();
    let mut failures: Vec<ChapterFailure> = Vec::new();
    for c in it: chapters
        invariant
            it.seq() == all,
            out@.len() == it.index(),
            failures@.len() <= it.index(),
            none_listed(chapter_views(all), texts(ids@)) ==> failures@.len() == 0,
            forall|k: int|
                0 <= k < failures@.len() ==> titles_listed_chapter(
                    chapter_views(all),
                    texts(ids@),
                    (#[trigger] failures@[k]).title@,
                ),
            forall|k: int|
                0 <= k < failures@.len() ==> names_failed_chapter(
                    chapter_views(all),
                    chapter_views(out@),
                    texts(ids@),
                    (#[trigger] failures@[k]).title@,
                ),
            forall|i: int|
                0 <= i < it.index() ==> same_chapter(all[i]@, #[trigger] out@[i]@) && (!texts(
                    ids@,
                ).contains(all[i]@.identifier) ==> out@[i]@ == all[i]@),
    {
        let mut c = c;
        let ghost at = it.index();
        let ghost asked = c@;
        assert(chapter_views(all)[at] == asked);
        let ghost done = out@;
        let ghost listed = failures@;
        let mut failed: Option<ChapterFailure> = None;
        if is_listed(ids, c.identifier.as_str()) {
            let outcome = source.update_chapter_content(&c);
            failed = c.record_fetched(outcome);
        }
        out.push(c);
        proof {
            lemma_chapter_views_push(done, c);
            assert forall|k: int| 0 <= k < listed.len() implies names_failed_chapter(
                chapter_views(all),
                chapter_views(out@),
                texts(ids@),
                (#[trigger] listed[k]).title@,
            ) by {
                let i = choose|i: int|
                    0 <= i < chapter_views(all).len() && i < chapter_views(done).len() && texts(
                        ids@,
                    ).contains((#[trigger] chapter_views(all)[i]).identifier) && chapter_views(
                        all,
                    )[i].title == listed[k].title@ && chapter_views(done)[i].content is None;
                assert(chapter_views(out@)[i] == chapter_views(done)[i]);
            }
        }
        match failed {
            Some(failure) => {
                proof {
                    assert(chapter_views(out@)[at] == c@);
                    assert(titles_listed_chapter(chapter_views(all), texts(ids@), failure.title@));
                    assert(names_failed_chapter(
                        chapter_views(all),
                        chapter_views(out@),
                        texts(ids@),
                        failure.title@,
                    ));
                }
                failures.push(failure);
            },
            None => {},
        }
    }
    proof {
        assert(chapter_views(out@).len() == chapter_views(all).len());
    }
    (out, failures)
}

/// What a sync pass hands back: the reconciled book, how the pass ended, and
/// the chapters that could not be fetched.
#[derive(Debug)]
pub struct SyncOutcome {
    pub book: Book,
    pub result: UpdateResult,
    pub failures: Vec<ChapterFailure>,
}

/// Every chapter holds content.
pub open spec fn materialized(chapters: Seq<ChapterView>) -> bool {
    forall|i: int| 0 <= i < chapters.len() ==> (#[trigger] chapters[i]).content is Some
}

/// The chapters that survive filtering all satisfy the filter.
pub proof fn lemma_with_content_materialized(chapters: Seq<ChapterView>)
    ensures
        materialized(with_content(chapters)),
{
    let kept = with_content(chapters);
    assert forall|i: int| 0 <= i < kept.len() implies (#[trigger] kept[i]).content is Some by {
        chapters.lemma_filter_pred(|c: ChapterView| c.content is Some, i);
    }
}

/// Filtering chapters that all hold content changes nothing.
pub proof fn lemma_materialized_with_content(chapters: Seq<ChapterView>)
    requires
        materialized(chapters),
    ensures
        with_content(chapters) == chapters,
    decreases chapters.len(),
{
    reveal(Seq::filter);
    if chapters.len() > 0 {
        lemma_materialized_with_content(chapters.drop_last());
        assert(chapters.drop_last().push(chapters.last()) == chapters);
    }
}

/// Where no identifier has to be fetched, the fetched index holds no new chapter.
pub proof fn lemma_nothing_new(fetched: Seq<ChapterView>, current: Seq<ChapterView>)
    requires
        forall|id: Seq<char>| !needs_refresh(fetched, current, id),
    ensures
        new_chapters(fetched, current) == Seq::<ChapterView>::empty(),
        advanced_chapters(fetched, current) == Seq::<ChapterView>::empty(),
{
    let fresh = new_chapters(fetched, current);
    if fresh.len() > 0 {
        fetched.lemma_filter_pred(|c: ChapterView| !knows(current, c.identifier), 0);
        fetched.lemma_filter_contains_rev(|c: ChapterView| !knows(current, c.identifier), fresh[0]);
        let k = choose|k: int| 0 <= k < fetched.len() && fetched[k] == fresh[0];
        assert(needs_refresh(fetched, current, fetched[k].identifier));
    }
    let moved = advanced_chapters(fetched, current);
    if moved.len() > 0 {
        fetched.lemma_filter_pred(|c: ChapterView| advanced(c, current), 0);
        fetched.lemma_filter_contains_rev(|c: ChapterView| advanced(c, current), moved[0]);
        let k = choose|k: int| 0 <= k < fetched.len() && fetched[k] == moved[0];
        assert(needs_refresh(fetched, current, fetched[k].identifier));
    }
    assert(fresh =~= Seq::<ChapterView>::empty());
    assert(moved =~= Seq::<ChapterView>::empty());
}

/// `book` and `result` are what a sync pass hands back for the book as it
/// stood in `current`, where the source served the index `fetched` and the
/// chapters came out of fetching as `after`: `ids` are the identifiers that
/// had to be fetched, each once; only chapters with those identifiers were
/// touched; the chapters that hold content make up the book, behind the
/// metadata of the book as it stood and the cover of the index; and the
/// number of identifiers decides the result.
pub open spec fn is_sync_of(
    current: Option<BookView>,
    fetched: BookView,
    ids: Seq<Seq<char>>,
    after: Seq<ChapterView>,
    book: BookView,
    result: UpdateResult,
) -> bool {
    let planned = planned_book(fetched, sync_base(fetched, current));
    &&& ids.no_duplicates()
    &&& ids.to_set() == refresh_ids(fetched.chapters, sync_base(fetched, current).chapters)
    &&& ids.len() <= u16::MAX
    &&& refreshed(planned.chapters, after, ids)
    &&& book == (BookView { chapters: with_content(after), ..planned })
    &&& result == sync_result(ids.len() as u16)
}

/// `book` and `result` are what a sync pass may hand back for the book as it
/// stood in `current`: the sync of some index and some answers of a source.
pub open spec fn is_sync(current: Option<BookView>, book: BookView, result: UpdateResult) -> bool {
    exists|fetched: BookView, ids: Seq<Seq<char>>, after: Seq<ChapterView>| #[trigger]
        is_sync_of(current, fetched, ids, after, book, result)
}

/// One sync pass against `source`: fetches the chapter index, reconciles it
/// with `current_book`, fetches the chapters that are new or have moved
/// forward, drops those left without content and takes over the cover.
///
/// What the source answers is not known here. Whatever it answers: a failure
/// to fetch the index fails the pass, a failure on one chapter does not; the
/// outcome is the sync of some index and some answers for the chapters that
/// had to be fetched; the book handed back holds only chapters with
/// content; and a pass that ends `UpToDate` leaves the chapters that held
/// content as they were.
pub fn get_book<S: WebnovelSource>(source: &S, current_book: Option<Book>) -> (r: Result<
    SyncOutcome,
    Failure,
>)
    ensures
        r matches Ok(outcome) ==> {
            &&& is_sync(opt_book_view(current_book), outcome.book@, outcome.result)
            &&& materialized(outcome.book@.chapters)
            &&& outcome.result is UpToDate || (outcome.result matches UpdateResult::Updated(n) && n
                > 0)
            &&& outcome.result is UpToDate ==> outcome.failures@.len() == 0
            &&& current_book matches Some(before) ==> {
                &&& outcome.book@.id == before@.id
                &&& outcome.book@.url == before@.url
                &&& outcome.book@.title == before@.title
                &&& outcome.book@.author == before@.author
                &&& outcome.book@.description == before@.description
                &&& outcome.book@.date_published == before@.date_published
                &&& outcome.result is UpToDate ==> outcome.book@.chapters == with_content(
                    before@.chapters,
                )
            }
        },
{
    let fetched = source.fetch_without_chapter_content();
    let ghost answer = fetched;
    let ghost start = opt_book_view(current_book);
    let r = sync_fetched(source, fetched, current_book);
    let ghost handed_back = r;
    proof {
        match (answer, handed_back) {
            (Ok(index), Ok(outcome)) => {
                let (ids, after) = choose|ids: Seq<Seq<char>>, after: Seq<ChapterView>| #[trigger]
                    is_sync_of(start, index@, ids, after, outcome.book@, outcome.result);
                assert(is_sync_of(start, index@, ids, after, outcome.book@, outcome.result));
                assert(is_sync(start, outcome.book@, outcome.result));
            },
            _ => {},
        }
    }
    r
}

/// `book` and `result` are what a sync pass may hand back for the book as it
/// stood in `current` where the source served the index `fetched`: the sync
/// of that index and some answers of the source for the chapters that had to
/// be fetched.
pub open spec fn is_sync_with(
    current: Option<BookView>,
    fetched: BookView,
    book: BookView,
    result: UpdateResult,
) -> bool {
    exists|ids: Seq<Seq<char>>, after: Seq<ChapterView>| #[trigger]
        is_sync_of(current, fetched, ids, after, book, result)
}

/// The identifiers that a sync has to fetch where the source served the index
/// `fetched` for the book as it stood in `current`.
pub open spec fn ids_to_fetch(fetched: BookView, current: Option<BookView>) -> Set<Seq<char>> {
    refresh_ids(fetched.chapters, sync_base(fetched, current).chapters)
}

/// One sync pass, from the answer of the source to the request for the
/// chapter index on: `fetched` is that answer.
///
/// A failure to fetch the index fails the pass with that failure. An index
/// that names more chapters to fetch than a 16-bit count can hold fails it
/// with `CountOverflow`. Every other index is synced: the pass succeeds
/// whatever the source answers for the single chapters, the outcome is the
/// sync of this index with those answers, and the chapters that could not be
/// fetched are listed, never more of them than the book holds chapters once
/// the new ones have joined it.
pub fn sync_fetched<S: WebnovelSource>(
    source: &S,
    fetched: Result<Book, Failure>,
    current_book: Option<Book>,
) -> (r: Result<SyncOutcome, Failure>)
    ensures
        match fetched {
            Err(e) => r matches Err(f) && f == e,
            Ok(index) => {
                &&& ids_to_fetch(index@, opt_book_view(current_book)).finite()
                &&& r is Ok <==> ids_to_fetch(index@, opt_book_view(current_book)).len()
                    <= u16::MAX
                &&& r matches Err(e) ==> e is CountOverflow
                &&& r matches Ok(outcome) ==> {
                    &&& is_sync_with(
                        opt_book_view(current_book),
                        index@,
                        outcome.book@,
                        outcome.result,
                    )
                    &&& outcome.failures@.len() <= planned_book(
                        index@,
                        sync_base(index@, opt_book_view(current_book)),
                    ).chapters.len()
                }
            },
        },
        r matches Ok(outcome) ==> {
            &&& materialized(outcome.book@.chapters)
            &&& outcome.result is UpToDate || (outcome.result matches UpdateResult::Updated(n) && n
                > 0)
            &&& outcome.result is UpToDate ==> outcome.failures@.len() == 0
            &&& current_book matches Some(before) ==> {
                &&& outcome.book@.id == before@.id
                &&& outcome.book@.url == before@.url
                &&& outcome.book@.title == before@.title
                &&& outcome.book@.author == before@.author
                &&& outcome.book@.description == before@.description
                &&& outcome.book@.date_published == before@.date_published
                &&& outcome.result is UpToDate ==> outcome.book@.chapters == with_content(
                    before@.chapters,
                )
            }
        },
{
    let fetched = match fetched {
        Ok(book) => book,
        Err(e) => {
            return Err(e);
        },
    };
    let ghost remote = fetched@;
    let ghost start = opt_book_view(current_book);
    let ghost base = sync_base(remote, start);
    let plan = match plan_sync(fetched, current_book) {
        Ok(plan) => plan,
        Err(e) => {
            return Err(e);
        },
    };
    let ghost planned = plan.book@;
    let SyncPlan { book, to_refresh, count } = plan;
    let Book { id, url, title, author, description, date_published, cover_url, chapters } = book;
    let (chapters, failures) = if count > 0 {
        refresh_chapters(source, chapters, &to_refresh)
    } else {
        (chapters, Vec::new())
    };
    let ghost after = chapter_views(chapters@);
    proof {
        if count == 0 {
            assert(texts(to_refresh@).len() == 0);
            assert forall|id: Seq<char>| !needs_refresh(remote.chapters, base.chapters, id) by {
                assert(!texts(to_refresh@).to_set().contains(id));
            }
            lemma_nothing_new(remote.chapters, base.chapters);
            assert(planned.chapters =~= base.chapters);
        }
        lemma_with_content_materialized(after);
        assert(refreshed(planned.chapters, after, texts(to_refresh@)));
    }
    let book = Book { id, url, title, author, description, date_published, cover_url, chapters };
    let (book, result) = finish_sync(SyncPlan { book, to_refresh, count });
    proof {
        assert(is_sync_of(start, remote, texts(to_refresh@), after, book@, result));
        assert(is_sync_with(start, remote, book@, result));
    }
    Ok(SyncOutcome { book, result, failures })
}

/// Syncing against an index that holds nothing new and nothing that moved
/// forward changes nothing: the pass ends `UpToDate`, and a book whose
/// chapters all hold content keeps its chapter list as it is.
pub proof fn lemma_sync_without_changes(
    current: BookView,
    fetched: BookView,
    ids: Seq<Seq<char>>,
    after: Seq<ChapterView>,
    book: BookView,
    result: UpdateResult,
)
    requires
        is_sync_of(Some(current), fetched, ids, after, book, result),
        forall|i: int|
            0 <= i < fetched.chapters.len() ==> !stale(
                #[trigger] fetched.chapters[i],
                current.chapters,
            ),
        materialized(current.chapters),
    ensures
        result == UpdateResult::UpToDate,
        book.chapters == current.chapters,
{
    assert(refresh_ids(fetched.chapters, current.chapters) =~= Set::<Seq<char>>::empty());
    ids.unique_seq_to_set();
    assert(ids.len() == 0);
    lemma_nothing_new(fetched.chapters, current.chapters);
    assert(merged(fetched.chapters, current.chapters) =~= current.chapters);
    assert(after =~= current.chapters);
    lemma_materialized_with_content(current.chapters);
}

/// No two chapters share an identifier.
pub open spec fn distinct_ids(chapters: Seq<ChapterView>) -> bool {
    forall|i: int, j: int|
        0 <= i < j < chapters.len() ==> (#[trigger] chapters[i]).identifier != (
        #[trigger] chapters[j]).identifier
}

/// In an index without repeated identifiers, the identifiers to fetch are as
/// many as the new chapters and the chapters that moved forward together.
pub proof fn lemma_refresh_count(fetched: Seq<ChapterView>, current: Seq<ChapterView>)
    requires
        distinct_ids(fetched),
    ensures
        refresh_ids(fetched, current).finite(),
        refresh_ids(fetched, current).len() == new_chapters(fetched, current).len()
            + advanced_chapters(fetched, current).len(),
    decreases fetched.len(),
{
    reveal(Seq::filter);
    if fetched.len() == 0 {
        assert(refresh_ids(fetched, current) =~= Set::<Seq<char>>::empty());
    } else {
        let n = fetched.len() - 1;
        let rest = fetched.drop_last();
        let last = fetched.last();
        assert(fetched.take(n) == rest);
        assert(fetched.take(n + 1) == fetched);
        assert(distinct_ids(rest)) by {
            assert forall|i: int, j: int| 0 <= i < j < rest.len() implies (#[trigger] rest[i]).identifier
                != (#[trigger] rest[j]).identifier by {
                assert(rest[i] == fetched[i]);
                assert(rest[j] == fetched[j]);
            }
        }
        lemma_refresh_count(rest, current);
        assert forall|id: Seq<char>|
            needs_refresh(fetched, current, id) <==> (needs_refresh(rest, current, id) || (
            last.identifier == id && stale(last, current))) by {
            lemma_needs_refresh_step(fetched, current, n, id);
        }
        assert(!needs_refresh(rest, current, last.identifier)) by {
            if needs_refresh(rest, current, last.identifier) {
                let k = choose|k: int|
                    0 <= k < rest.len() && (#[trigger] rest[k]).identifier == last.identifier
                        && stale(rest[k], current);
                assert(rest[k] == fetched[k]);
                assert(fetched[k].identifier != fetched[n].identifier);
            }
        }
        if stale(last, current) {
            assert(refresh_ids(fetched, current) =~= refresh_ids(rest, current).insert(
                last.identifier,
            ));
        } else {
            assert(refresh_ids(fetched, current) =~= refresh_ids(rest, current));
        }
        if advanced(last, current) {
            let k = choose|k: int|
                0 <= k < current.len() && (#[trigger] current[k]).identifier == last.identifier
                    && last.date_published.after(current[k].date_published);
            assert(knows(current, last.identifier));
        }
    }
}

/// A sync tells chapters apart by identifier alone. A chapter that the book
/// holds, and whose identifier the index shows neither as new nor with a
/// later date, is not fetched and stays as it was, whatever else the index
/// says of it, such as another title; where it holds content it is in the
/// book that the sync hands back.
pub proof fn lemma_known_chapter_is_kept(
    current: BookView,
    fetched: BookView,
    ids: Seq<Seq<char>>,
    after: Seq<ChapterView>,
    book: BookView,
    result: UpdateResult,
    i: int,
)
    requires
        is_sync_of(Some(current), fetched, ids, after, book, result),
        0 <= i < current.chapters.len(),
        !needs_refresh(fetched.chapters, current.chapters, current.chapters[i].identifier),
    ensures
        !ids.contains(current.chapters[i].identifier),
        after[i] == current.chapters[i],
        current.chapters[i].content is Some ==> book.chapters.contains(current.chapters[i]),
{
    let id = current.chapters[i].identifier;
    let planned = merged(fetched.chapters, current.chapters);
    assert(planned[i] == current.chapters[i]);
    if ids.contains(id) {
        assert(ids.to_set().contains(id));
    }
    assert(after[i] == planned[i]);
    if current.chapters[i].content is Some {
        after.lemma_filter_contains(|c: ChapterView| c.content is Some, i);
    }
}

/// Where a sync ends `Updated(n)`, `n` is the number of chapters that the
/// book gained plus the number of chapters that moved forward in time,
/// provided that the fetched index names no identifier twice and that every
/// chapter came out of the pass with content, so that none was dropped.
pub proof fn lemma_count_is_growth_plus_advanced(
    current: BookView,
    fetched: BookView,
    ids: Seq<Seq<char>>,
    after: Seq<ChapterView>,
    book: BookView,
    n: u16,
)
    requires
        is_sync_of(Some(current), fetched, ids, after, book, UpdateResult::Updated(n)),
        distinct_ids(fetched.chapters),
        materialized(after),
    ensures
        book.chapters.len() - current.chapters.len() + advanced_chapters(
            fetched.chapters,
            current.chapters,
        ).len() == n,
{
    lemma_refresh_count(fetched.chapters, current.chapters);
    lemma_materialized_with_content(after);
    ids.unique_seq_to_set();
}

/// What an update of a book comes to: how it ended, the book to write where
/// one has to be written, and the chapters that could not be fetched.
#[derive(Debug)]
pub struct Update {
    pub result: UpdateResult,
    pub book: Option<Book>,
    pub failures: Vec<ChapterFailure>,
}

impl Update {
    /// What the report of a source on a book decides: where the source
    /// reports the book as up to date, the update ends at once, `UpToDate`,
    /// with no book to write and no failure; where it does not, the update
    /// is open and the book has to be synced.
    pub fn on_report(up_to_date: bool) -> (r: Option<Update>)
        ensures
            r is Some <==> up_to_date,
            r matches Some(update) ==> update.result == UpdateResult::UpToDate && update.book
                is None && update.failures@.len() == 0,
    {
        if up_to_date {
            Some(Update::up_to_date())
        } else {
            None
        }
    }

    /// The update of a book that its source reports as up to date: it ends
    /// `UpToDate` at once, with no book to write and no failure.
    pub fn up_to_date() -> (r: Update)
        ensures
            r.result == UpdateResult::UpToDate,
            r.book is None,
            r.failures@.len() == 0,
    {
        Update { result: UpdateResult::UpToDate, book: None, failures: Vec::new() }
    }
}

/// What an update comes to once the sync pass has ended as `outcome`. A pass
/// that succeeded keeps its result and its failures, and hands its book on
/// for writing only where chapters were updated. A pass that failed ends in
/// `UpdateResult::Error` with that failure, with no book and no failures.
pub fn settle_update(outcome: Result<SyncOutcome, Failure>) -> (r: Update)
    ensures
        match outcome {
            Ok(o) => r.result == o.result && r.failures == o.failures && (if o.result is Updated {
                r.book == Some(o.book)
            } else {
                r.book is None
            }),
            Err(e) => r.result == UpdateResult::Error(e) && r.book is None && r.failures@.len()
                == 0,
        },
{
    match outcome {
        Ok(outcome) => {
            let SyncOutcome { book, result, failures } = outcome;
            if result.requires_write() {
                Update { result, book: Some(book), failures }
            } else {
                Update { result, book: None, failures }
            }
        },
        Err(e) => Update { result: UpdateResult::Error(e), book: None, failures: Vec::new() },
    }
}

/// Brings a book up to date against `source`. Nothing is fetched where the
/// source says that the book is up to date already. A book is handed back
/// for writing exactly where chapters were updated; a failed pass ends in
/// `UpdateResult::Error` and hands back none.
///
/// What the source answers is not known here. What the update is for each
/// of its answers is stated by `Update::on_report`, for what the source
/// reports of the book, and by `settle_update`, for every end of the sync
/// pass.
pub fn update_book<S: WebnovelSource>(source: &S, current_book: Option<Book>) -> (r: Update)
    ensures
        r.book is Some <==> r.result is Updated,
        r.result is UpToDate || r.result is Updated || r.result is Error,
        r.book matches Some(book) ==> materialized(book@.chapters) && is_sync(
            opt_book_view(current_book),
            book@,
            r.result,
        ),
        r.result matches UpdateResult::Updated(n) ==> n > 0,
        r.result is Error ==> r.failures@.len() == 0,
{
    let known = match &current_book {
        Some(book) => source.already_up_to_date(Some(book)),
        None => source.already_up_to_date(None),
    };
    match Update::on_report(known) {
        Some(update) => update,
        None => settle_update(get_book(source, current_book)),
    }
}

} // verus!
