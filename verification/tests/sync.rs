use autebooks::book::{Book, Chapter, Timestamp};
use autebooks::failure::Failure;
use autebooks::updater::{
    checked_count, contains_chapter, drop_empty_chapters, finish_sync, get_book, is_advanced,
    is_listed, plan_sync, refresh_chapters, settle_update, sync_fetched, update_book,
    ChapterContent, ChapterFailure, SyncOutcome, SyncPlan, Update, UpdateResult, WebnovelSource,
};
use std::cell::RefCell;

fn chapter(id: &str, secs: i64, content: Option<&str>) -> Chapter {
    Chapter {
        identifier: id.to_string(),
        date_published: Timestamp { secs, nanos: 0 },
        title: format!("Chapter {id}"),
        url: format!("https://example.org/{id}"),
        content: content.map(|c| c.to_string()),
        authors_note_start: None,
        authors_note_end: None,
    }
}

fn book(cover: &str, chapters: Vec<Chapter>) -> Book {
    Book {
        id: "42".to_string(),
        url: "https://example.org/fiction/42/a-book".to_string(),
        title: "A Book".to_string(),
        author: "An Author".to_string(),
        description: "About".to_string(),
        date_published: Timestamp { secs: 5, nanos: 0 },
        cover_url: cover.to_string(),
        chapters,
    }
}

fn ids(book: &Book) -> Vec<String> {
    book.chapters.iter().map(|c| c.identifier.clone()).collect()
}

/// A source that serves a fixed index and fails for the chapters it is told to fail for.
struct Fixed {
    index: Vec<Chapter>,
    cover: String,
    failing: Vec<String>,
    up_to_date: bool,
    fail_index: bool,
    asked: RefCell<Vec<String>>,
}

impl Fixed {
    fn new(index: Vec<Chapter>) -> Fixed {
        Fixed {
            index,
            cover: "https://example.org/new-cover.jpg".to_string(),
            failing: Vec::new(),
            up_to_date: false,
            fail_index: false,
            asked: RefCell::new(Vec::new()),
        }
    }
}

impl WebnovelSource for Fixed {
    fn get_title(&self, _path: &str) -> String {
        "A Book".to_string()
    }

    fn get_url(&self) -> String {
        "https://example.org/fiction/42/a-book".to_string()
    }

    fn already_up_to_date(&self, _current_book: Option<&Book>) -> bool {
        self.up_to_date
    }

    fn fetch_without_chapter_content(&self) -> Result<Book, Failure> {
        if self.fail_index {
            return Err(Failure::Network {
                url: self.get_url(),
                reason: "no route".to_string(),
            });
        }
        Ok(book(&self.cover, self.index.clone()))
    }

    fn update_chapter_content(&self, chapter: &Chapter) -> Result<ChapterContent, Failure> {
        self.asked.borrow_mut().push(chapter.identifier.clone());
        if self.failing.contains(&chapter.identifier) {
            return Err(Failure::Source { reason: "broken".to_string() });
        }
        Ok(ChapterContent {
            content: Some(format!("fresh {}", chapter.identifier)),
            authors_note_start: Some("hello".to_string()),
            authors_note_end: None,
        })
    }
}

#[test]
fn chapters_are_equal_by_identifier_alone() {
    let a = chapter("7", 10, Some("old text"));
    let mut b = chapter("7", 99, None);
    b.title = "Another title".to_string();
    b.url = "https://elsewhere.example/7".to_string();
    b.authors_note_start = Some("note".to_string());
    assert!(a == b);
    assert!(b == a);
    let c = chapter("8", 10, Some("old text"));
    assert!(a != c);
}

#[test]
fn identical_index_is_up_to_date() {
    let current = book("old", vec![chapter("1", 10, Some("a")), chapter("2", 20, Some("b"))]);
    let fetched = book("new", vec![chapter("1", 10, None), chapter("2", 20, None)]);
    let plan = plan_sync(fetched, Some(current)).unwrap();
    assert_eq!(plan.count, 0);
    assert!(plan.to_refresh.is_empty());
    let (book, result) = finish_sync(plan);
    assert!(matches!(result, UpdateResult::UpToDate));
    assert_eq!(ids(&book), vec!["1", "2"]);
    assert_eq!(book.chapters[0].content.as_deref(), Some("a"));
    assert_eq!(book.chapters[1].content.as_deref(), Some("b"));
    // The cover is refreshed whether or not a chapter changed.
    assert_eq!(book.cover_url, "new");
}

#[test]
fn older_remote_dates_change_nothing() {
    let current = book("old", vec![chapter("1", 10, Some("a"))]);
    let fetched = book("new", vec![chapter("1", 9, None)]);
    let plan = plan_sync(fetched, Some(current)).unwrap();
    assert_eq!(plan.count, 0);
}

#[test]
fn new_chapters_follow_the_old_ones_in_remote_order() {
    let current = book("old", vec![chapter("2", 20, Some("b")), chapter("1", 10, Some("a"))]);
    let fetched = book(
        "new",
        vec![
            chapter("4", 40, None),
            chapter("1", 10, None),
            chapter("3", 30, None),
            chapter("2", 25, None),
        ],
    );
    let plan = plan_sync(fetched, Some(current)).unwrap();
    assert_eq!(ids(&plan.book), vec!["2", "1", "4", "3"]);
    // Identifiers to fetch: in the order of the remote index.
    assert_eq!(plan.to_refresh, vec!["4", "3", "2"]);
    assert_eq!(plan.count, 3);
    assert_eq!(plan.book.cover_url, "new");
    assert_eq!(plan.book.title, "A Book");
}

#[test]
fn an_identifier_is_counted_once() {
    let current = book("old", vec![]);
    let fetched = book("new", vec![chapter("1", 10, None), chapter("1", 11, None)]);
    let plan = plan_sync(fetched, Some(current)).unwrap();
    assert_eq!(plan.to_refresh, vec!["1"]);
    assert_eq!(plan.count, 1);
    assert_eq!(plan.book.chapters.len(), 2);
}

#[test]
fn without_a_current_book_the_fetched_metadata_is_the_base() {
    let mut fetched = book("cover", vec![chapter("1", 10, None)]);
    fetched.title = "Fetched".to_string();
    let plan = plan_sync(fetched, None).unwrap();
    assert_eq!(plan.book.title, "Fetched");
    assert_eq!(plan.book.cover_url, "cover");
    assert_eq!(ids(&plan.book), vec!["1"]);
    assert_eq!(plan.count, 1);
}

#[test]
fn count_is_growth_plus_advanced() {
    let current = book(
        "old",
        vec![chapter("1", 10, Some("a")), chapter("2", 20, Some("b")), chapter("3", 30, Some("c"))],
    );
    let source = Fixed::new(vec![
        chapter("1", 10, None),
        chapter("2", 21, None),
        chapter("3", 31, None),
        chapter("4", 40, None),
    ]);
    let outcome = get_book(&source, Some(current)).unwrap();
    // One chapter gained, two moved forward.
    match outcome.result {
        UpdateResult::Updated(n) => assert_eq!(n as usize, (outcome.book.chapters.len() - 3) + 2),
        other => panic!("unexpected {other:?}"),
    }
    assert_eq!(ids(&outcome.book), vec!["1", "2", "3", "4"]);
    assert_eq!(*source.asked.borrow(), vec!["2", "3", "4"]);
    assert_eq!(outcome.book.chapters[0].content.as_deref(), Some("a"));
    assert_eq!(outcome.book.chapters[1].content.as_deref(), Some("fresh 2"));
    assert_eq!(outcome.book.chapters[1].authors_note_start.as_deref(), Some("hello"));
    assert_eq!(outcome.book.chapters[3].content.as_deref(), Some("fresh 4"));
    assert!(outcome.failures.is_empty());
    assert_eq!(outcome.book.cover_url, "https://example.org/new-cover.jpg");
}

#[test]
fn a_failed_chapter_is_dropped_and_the_rest_goes_on() {
    let current = book("old", vec![chapter("1", 10, Some("a"))]);
    let mut source = Fixed::new(vec![
        chapter("1", 10, None),
        chapter("2", 20, None),
        chapter("3", 30, None),
    ]);
    source.failing = vec!["2".to_string()];
    let outcome = get_book(&source, Some(current)).unwrap();
    assert!(matches!(outcome.result, UpdateResult::Updated(2)));
    assert_eq!(ids(&outcome.book), vec!["1", "3"]);
    assert_eq!(outcome.failures.len(), 1);
    assert_eq!(outcome.failures[0].title, "Chapter 2");
    assert!(matches!(outcome.failures[0].error, Failure::Source { .. }));
}

#[test]
fn chapters_left_empty_by_an_earlier_pass_are_pruned() {
    let current = book("old", vec![chapter("1", 10, Some("a")), chapter("2", 20, None)]);
    let source = Fixed::new(vec![chapter("1", 10, None), chapter("2", 20, None)]);
    let outcome = get_book(&source, Some(current)).unwrap();
    assert!(matches!(outcome.result, UpdateResult::UpToDate));
    assert_eq!(ids(&outcome.book), vec!["1"]);
    assert!(source.asked.borrow().is_empty());
}

#[test]
fn a_failing_index_fails_the_pass() {
    let mut source = Fixed::new(vec![]);
    source.fail_index = true;
    let outcome = get_book(&source, None);
    assert!(matches!(outcome, Err(Failure::Network { .. })));
    let update = update_book(&source, None);
    assert!(matches!(update.result, UpdateResult::Error(Failure::Network { .. })));
    assert!(update.book.is_none());
}

#[test]
fn too_many_chapters_overflow_the_count() {
    assert!(matches!(checked_count(65536), Err(Failure::CountOverflow)));
    assert!(matches!(checked_count(usize::MAX), Err(Failure::CountOverflow)));
    assert!(matches!(checked_count(65535), Ok(65535)));
    assert!(matches!(checked_count(0), Ok(0)));
    let some: Vec<Chapter> = (0..300).map(|i| chapter(&i.to_string(), 1, None)).collect();
    let plan = plan_sync(book("c", some), None).unwrap();
    assert_eq!(plan.count, 300);
}

#[test]
fn only_an_updated_book_is_handed_back_for_writing() {
    let current = book("old", vec![chapter("1", 10, Some("a"))]);
    let source = Fixed::new(vec![chapter("1", 10, None), chapter("2", 20, None)]);
    let update = update_book(&source, Some(current));
    assert!(matches!(update.result, UpdateResult::Updated(1)));
    assert_eq!(ids(&update.book.unwrap()), vec!["1", "2"]);

    let current = book("old", vec![chapter("1", 10, Some("a"))]);
    let source = Fixed::new(vec![chapter("1", 10, None)]);
    let update = update_book(&source, Some(current));
    assert!(matches!(update.result, UpdateResult::UpToDate));
    assert!(update.book.is_none());

    let current = book("old", vec![chapter("1", 10, Some("a"))]);
    let mut source = Fixed::new(vec![chapter("1", 10, None), chapter("2", 20, None)]);
    source.up_to_date = true;
    let update = update_book(&source, Some(current));
    assert!(matches!(update.result, UpdateResult::UpToDate));
    assert!(update.book.is_none());
    assert!(source.asked.borrow().is_empty());
}

#[test]
fn recording_an_outcome() {
    let mut c = chapter("1", 10, Some("old"));
    c.authors_note_end = Some("bye".to_string());
    let failure = c.record_fetched(Ok(ChapterContent {
        content: Some("new".to_string()),
        authors_note_start: None,
        authors_note_end: None,
    }));
    assert!(failure.is_none());
    assert_eq!(c.content.as_deref(), Some("new"));
    assert_eq!(c.authors_note_end, None);
    let failure = c.record_fetched(Err(Failure::Source { reason: "x".to_string() }));
    assert_eq!(failure.unwrap().title, "Chapter 1");
    assert_eq!(c.content, None);
    assert_eq!(c.identifier, "1");
}

#[test]
fn the_small_questions() {
    let chapters = vec![chapter("1", 10, None), chapter("2", 20, None)];
    assert!(contains_chapter(&chapters, &chapter("2", 99, Some("other"))));
    assert!(!contains_chapter(&chapters, &chapter("3", 10, None)));
    assert!(is_advanced(&chapter("2", 21, None), &chapters));
    assert!(!is_advanced(&chapter("2", 20, None), &chapters));
    assert!(!is_advanced(&chapter("3", 99, None), &chapters));
    let later = Chapter { date_published: Timestamp { secs: 20, nanos: 1 }, ..chapter("2", 20, None) };
    assert!(is_advanced(&later, &chapters));
    assert!(is_listed(&vec!["a".to_string(), "b".to_string()], "b"));
    assert!(!is_listed(&vec!["a".to_string()], "b"));
    let kept = drop_empty_chapters(vec![
        chapter("1", 1, None),
        chapter("2", 2, Some("x")),
        chapter("3", 3, None),
        chapter("4", 4, Some("y")),
    ]);
    assert_eq!(kept.iter().map(|c| c.identifier.as_str()).collect::<Vec<_>>(), vec!["2", "4"]);
}

#[test]
fn only_listed_chapters_are_asked_for() {
    let source = Fixed::new(vec![]);
    let chapters = vec![chapter("1", 1, Some("a")), chapter("2", 2, None), chapter("3", 3, None)];
    let (after, failures) = refresh_chapters(&source, chapters, &vec!["3".to_string()]);
    assert!(failures.is_empty());
    assert_eq!(*source.asked.borrow(), vec!["3"]);
    assert_eq!(after[0].content.as_deref(), Some("a"));
    assert_eq!(after[1].content, None);
    assert_eq!(after[2].content.as_deref(), Some("fresh 3"));
}

#[test]
fn results_and_writing() {
    assert!(UpdateResult::Updated(3).requires_write());
    assert!(!UpdateResult::UpToDate.requires_write());
    assert!(!UpdateResult::Unsupported.requires_write());
    assert!(!UpdateResult::Skipped.requires_write());
    assert!(!UpdateResult::MoreChapterThanSource(2).requires_write());
    assert!(matches!(
        UpdateResult::from(Err(Failure::CountOverflow)),
        UpdateResult::Error(Failure::CountOverflow)
    ));
    assert!(matches!(UpdateResult::from(Ok(UpdateResult::Updated(4))), UpdateResult::Updated(4)));
    let (_, result) = finish_sync(SyncPlan { book: Book::default(), to_refresh: vec![], count: 0 });
    assert!(matches!(result, UpdateResult::UpToDate));
}

#[test]
fn clones_keep_everything() {
    let first = book("cover", vec![chapter("1", 10, Some("a"))]);
    let copy = first.clone();
    assert_eq!(copy.title, "A Book");
    assert_eq!(copy.chapters.len(), 1);
    assert_eq!(copy.chapters[0].content.as_deref(), Some("a"));
    let bare = first.clone_without_chapters();
    assert_eq!(bare.id, "42");
    assert_eq!(bare.cover_url, "cover");
    assert!(bare.chapters.is_empty());
    assert_eq!(Chapter::default().identifier, "");
    assert_eq!(Timestamp::default(), Timestamp { secs: 0, nanos: 0 });
}

#[test]
fn the_answer_for_the_index_decides_the_pass() {
    let source = Fixed::new(vec![]);
    let failed: Result<Book, Failure> =
        Err(Failure::Network { url: "u".to_string(), reason: "down".to_string() });
    match sync_fetched(&source, failed, Some(book("old", vec![chapter("1", 10, Some("a"))]))) {
        Err(Failure::Network { url, reason }) => {
            assert_eq!(url, "u");
            assert_eq!(reason, "down");
        }
        other => panic!("unexpected {other:?}"),
    }
    assert!(source.asked.borrow().is_empty());

    let mut source = Fixed::new(vec![]);
    source.failing = vec!["2".to_string(), "3".to_string()];
    let index = book("new", vec![chapter("1", 11, None), chapter("2", 20, None), chapter("3", 30, None)]);
    let outcome =
        sync_fetched(&source, Ok(index), Some(book("old", vec![chapter("1", 10, Some("a"))])))
            .unwrap();
    assert!(matches!(outcome.result, UpdateResult::Updated(3)));
    assert_eq!(ids(&outcome.book), vec!["1"]);
    assert_eq!(outcome.book.chapters[0].content.as_deref(), Some("fresh 1"));
    assert_eq!(outcome.book.cover_url, "new");
    assert_eq!(outcome.failures.len(), 2);
    assert_eq!(*source.asked.borrow(), vec!["1", "2", "3"]);
}

#[test]
fn an_update_follows_the_end_of_its_pass() {
    assert!(Update::on_report(false).is_none());
    let reported = Update::on_report(true).unwrap();
    assert!(matches!(reported.result, UpdateResult::UpToDate));
    assert!(reported.book.is_none() && reported.failures.is_empty());
    let done = Update::up_to_date();
    assert!(matches!(done.result, UpdateResult::UpToDate));
    assert!(done.book.is_none());
    assert!(done.failures.is_empty());

    let failure = |title: &str| ChapterFailure {
        title: title.to_string(),
        error: Failure::Source { reason: "broken".to_string() },
    };
    let updated = settle_update(Ok(SyncOutcome {
        book: book("c", vec![chapter("1", 1, Some("a"))]),
        result: UpdateResult::Updated(2),
        failures: vec![failure("Chapter 2")],
    }));
    assert!(matches!(updated.result, UpdateResult::Updated(2)));
    assert_eq!(ids(&updated.book.unwrap()), vec!["1"]);
    assert_eq!(updated.failures.len(), 1);
    assert_eq!(updated.failures[0].title, "Chapter 2");

    let unchanged = settle_update(Ok(SyncOutcome {
        book: book("c", vec![chapter("1", 1, Some("a"))]),
        result: UpdateResult::UpToDate,
        failures: vec![],
    }));
    assert!(matches!(unchanged.result, UpdateResult::UpToDate));
    assert!(unchanged.book.is_none());

    let failed = settle_update(Err(Failure::CountOverflow));
    assert!(matches!(failed.result, UpdateResult::Error(Failure::CountOverflow)));
    assert!(failed.book.is_none());
    assert!(failed.failures.is_empty());
}

#[test]
fn failures_name_the_chapters_that_were_asked_for() {
    let mut source = Fixed::new(vec![]);
    source.failing = vec!["1".to_string(), "2".to_string(), "3".to_string()];
    let chapters = vec![chapter("1", 1, Some("a")), chapter("2", 2, None), chapter("3", 3, None)];
    let (after, failures) =
        refresh_chapters(&source, chapters, &vec!["3".to_string(), "2".to_string()]);
    assert_eq!(
        failures.iter().map(|f| f.title.as_str()).collect::<Vec<_>>(),
        vec!["Chapter 2", "Chapter 3"]
    );
    assert_eq!(after[0].content.as_deref(), Some("a"));
    assert_eq!((&after[1].content, &after[2].content), (&None, &None));
    let chapters = vec![chapter("1", 1, Some("a"))];
    let (_, failures) = refresh_chapters(&source, chapters, &vec!["9".to_string()]);
    assert!(failures.is_empty());
    assert!(source.asked.borrow().iter().all(|id| id != "1"));
}

#[test]
fn a_known_chapter_with_another_title_is_left_alone() {
    let current = book("old", vec![chapter("1", 10, Some("a"))]);
    let mut renamed = chapter("1", 9, None);
    renamed.title = "Another title".to_string();
    let source = Fixed::new(vec![renamed]);
    let outcome = get_book(&source, Some(current)).unwrap();
    assert!(matches!(outcome.result, UpdateResult::UpToDate));
    assert_eq!(outcome.book.chapters.len(), 1);
    assert_eq!(outcome.book.chapters[0].title, "Chapter 1");
    assert_eq!(outcome.book.chapters[0].content.as_deref(), Some("a"));
    assert!(source.asked.borrow().is_empty());
}
