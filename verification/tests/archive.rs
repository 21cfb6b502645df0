use autebooks::archive::{
    assemble, assign_file_names, collect_image_urls, find_free_number, gather_images, is_taken,
    pack, plan_images, Entry, Image, ImageFile,
};
use autebooks::book::{Book, Chapter, Timestamp};
use autebooks::failure::Failure;
use autebooks::parse::{
    extract_from_fanficfare_generated_chapter, pick_note_from_end, unwrap_or_empty, Document,
};
use autebooks::sanitize::clean_html;
use epub::doc::EpubDoc;
use std::io::{Cursor, Read};

fn chapter(id: &str, title: &str, secs: i64, content: Option<&str>) -> Chapter {
    Chapter {
        identifier: id.to_string(),
        date_published: Timestamp { secs, nanos: 0 },
        title: title.to_string(),
        url: format!("https://www.royalroad.com/fiction/42/a-book/chapter/{id}/slug"),
        content: content.map(|c| c.to_string()),
        authors_note_start: None,
        authors_note_end: None,
    }
}

fn book() -> Book {
    let mut second = chapter(
        "102",
        "Two",
        1431734400,
        Some("<p style=\"font-family: x; color: red\">second</p><p>more</p>"),
    );
    second.authors_note_start = Some("<p>before</p>".to_string());
    second.authors_note_end = Some("<p>after</p>".to_string());
    Book {
        id: "42".to_string(),
        url: "https://www.royalroad.com/fiction/42/a-book".to_string(),
        title: "A Book".to_string(),
        author: "An Author".to_string(),
        description: "About".to_string(),
        date_published: Timestamp { secs: 1431648000, nanos: 0 },
        cover_url: "https://cdn.example.org/covers/42/cover.jpg".to_string(),
        chapters: vec![chapter("101", "One", 1431648000, Some("<p>first</p>")), second],
    }
}

fn names(files: &[ImageFile]) -> Vec<(String, String)> {
    files.iter().map(|f| (f.url.clone(), f.filename.clone())).collect()
}

fn urls(list: &[&str]) -> Vec<String> {
    list.iter().map(|u| u.to_string()).collect()
}

#[test]
fn colliding_names_get_increasing_integers() {
    let files = assign_file_names(&urls(&[
        "https://h.example/a/cover.jpg",
        "https://h.example/b/cover.jpg",
        "https://h.example/c/cover.jpg",
    ]));
    assert_eq!(
        names(&files),
        vec![
            ("https://h.example/a/cover.jpg".to_string(), "cover.jpg".to_string()),
            ("https://h.example/b/cover.jpg".to_string(), "0_cover.jpg".to_string()),
            ("https://h.example/c/cover.jpg".to_string(), "1_cover.jpg".to_string()),
        ]
    );
}

#[test]
fn the_integer_counts_collisions_of_all_names() {
    let files = assign_file_names(&urls(&[
        "https://h.example/a/x.png",
        "https://h.example/a/y.png",
        "https://h.example/b/y.png",
        "",
        "https://h.example/b/x.png",
        "https://h.example/c/z.png",
        "https://h.example/c/x.png",
    ]));
    let given: Vec<String> = files.iter().map(|f| f.filename.clone()).collect();
    assert_eq!(given, vec!["x.png", "y.png", "0_y.png", "1_x.png", "z.png", "2_x.png"]);
    assert!(is_taken(&files, "0_y.png"));
    assert!(!is_taken(&files, "0_x.png"));
    assert!(assign_file_names(&vec![]).is_empty());
}

#[test]
fn a_numbered_name_that_is_taken_is_passed_over() {
    let files = assign_file_names(&urls(&[
        "https://h.example/a/0_x.png",
        "https://h.example/a/x.png",
        "https://h.example/b/x.png",
        "https://h.example/c/1_x.png",
        "https://h.example/c/x.png",
        "https://h.example/d/x.png",
    ]));
    let given: Vec<String> = files.iter().map(|f| f.filename.clone()).collect();
    assert_eq!(given, vec!["0_x.png", "x.png", "1_x.png", "2_1_x.png", "3_x.png", "4_x.png"]);
    let mut sorted = given.clone();
    sorted.sort();
    sorted.dedup();
    assert_eq!(sorted.len(), given.len());
    let found = find_free_number(&files, "x.png", 0).unwrap();
    assert_eq!(found, (2, "2_x.png".to_string()));
    assert!(find_free_number(&files, "x.png", u64::MAX).is_none());
}

#[test]
fn images_are_collected_once_in_first_seen_order() {
    let mut b = book();
    b.chapters[0].content = Some(
        "<img src=\"https://i.example/a.png\"><img src=\"https://i.example/failedtoload\"><img src=\"https://i.example/b.png\">"
            .to_string(),
    );
    b.chapters[1].content = Some("<img src=\"https://i.example/c.png\"><img src=\"https://i.example/a.png\">".to_string());
    b.chapters[1].authors_note_start = Some("<img src=\"https://i.example/d.png\">".to_string());
    b.chapters[1].authors_note_end = Some("<img src=\"https://cdn.example.org/covers/42/cover.jpg\"><img src=\"https://i.example/e.png\">".to_string());
    assert_eq!(
        collect_image_urls(&b),
        urls(&[
            "https://cdn.example.org/covers/42/cover.jpg",
            "https://i.example/a.png",
            "https://i.example/b.png",
            "https://i.example/c.png",
            "https://i.example/d.png",
            "https://i.example/e.png",
        ])
    );
    let planned = plan_images(&b);
    assert_eq!(planned.len(), 6);
    assert_eq!(planned[0].filename, "cover.jpg");
    assert_eq!(planned[5].filename, "e.png");
}

fn entry_names(entries: &[Entry]) -> Vec<String> {
    entries.iter().map(|e| e.name.clone()).collect()
}

#[test]
fn the_archive_has_its_entries_in_order() {
    let images = vec![
        Image { filename: "cover.jpg".to_string(), data: vec![1, 2, 3] },
        Image { filename: "0_cover.jpg".to_string(), data: vec![4] },
    ];
    let entries = assemble(&book(), images).unwrap();
    assert_eq!(
        entry_names(&entries),
        vec![
            "mimetype",
            "META-INF/container.xml",
            "OEBPS/content.opf",
            "OEBPS/toc.ncx",
            "OEBPS/nav.xhtml",
            "OEBPS/text/101.xhtml",
            "OEBPS/text/102.xhtml",
            "OEBPS/text/title.xhtml",
            "OEBPS/images/cover.jpg",
            "OEBPS/images/0_cover.jpg",
            "OEBPS/styles/stylesheet.css",
        ]
    );
    assert_eq!(entries[0].data, b"application/epub+zip");
    assert!(!entries[0].compressed);
    assert!(entries[1..].iter().all(|e| e.compressed));
    assert_eq!(entries[8].data, vec![1, 2, 3]);
    let opf = String::from_utf8(entries[2].data.clone()).unwrap();
    assert!(opf.contains("<item id=\"0_cover.jpg\" href=\"images/0_cover.jpg\" media-type=\"image/jpg\" />"));
}

#[test]
fn an_archive_that_cannot_be_assembled_fails() {
    let mut b = book();
    b.chapters[1].date_published = Timestamp { secs: i64::MAX, nanos: 0 };
    assert!(matches!(assemble(&b, vec![]), Err(Failure::Format { .. })));
    assert!(matches!(autebooks::archive::write(&b, vec![]), Err(Failure::Format { .. })));
    let twice = vec![
        Entry { name: "a".to_string(), data: vec![], compressed: true },
        Entry { name: "a".to_string(), data: vec![], compressed: true },
    ];
    assert!(matches!(pack(&twice), Err(Failure::Format { .. })));
}

#[test]
fn the_media_type_is_stored_first_and_uncompressed() {
    let bytes = autebooks::archive::write(&book(), vec![]).unwrap();
    assert_eq!(&bytes[0..4], b"PK\x03\x04");
    // A stored entry holds its content as it is, right behind the name.
    assert_eq!(&bytes[30..38], b"mimetype");
    assert_eq!(&bytes[38..58], b"application/epub+zip");
    let mut archive = zip::ZipArchive::new(Cursor::new(bytes)).unwrap();
    assert_eq!(archive.by_index(0).unwrap().name().unwrap(), "mimetype");
    assert_eq!(archive.by_index(0).unwrap().compression(), zip::CompressionMethod::Stored);
    assert_eq!(archive.by_index(1).unwrap().compression(), zip::CompressionMethod::Deflated);
    let mut css = String::new();
    archive.by_name("OEBPS/styles/stylesheet.css").unwrap().read_to_string(&mut css).unwrap();
    assert_eq!(css.into_bytes(), autebooks::epub::stylesheet());
}

fn read(bytes: Vec<u8>, now: Timestamp) -> Book {
    let mut doc = EpubDoc::from_reader(Cursor::new(bytes)).unwrap();
    let metadata: Vec<(String, String)> =
        doc.metadata.iter().map(|m| (m.property.clone(), m.value.clone())).collect();
    let spine: Vec<String> = doc.spine.iter().map(|s| s.idref.clone()).collect();
    let mut documents = Vec::new();
    for idref in spine {
        let xhtml = doc.get_resource_str(&idref).map(|(text, _)| text).unwrap_or_default();
        documents.push(Document { identifier: idref, xhtml });
    }
    Book::from_path(&metadata, "fallback".to_string(), &documents, now)
}

#[test]
fn a_written_book_reads_back() {
    let book = book();
    let bytes = autebooks::archive::write(&book, vec![]).unwrap();
    let now = Timestamp { secs: 7, nanos: 0 };
    let back = read(bytes, now);
    assert_eq!(back.id, book.id);
    assert_eq!(back.url, book.url);
    assert_eq!(back.title, book.title);
    assert_eq!(back.author, book.author);
    assert_eq!(back.description, book.description);
    assert_eq!(back.date_published, book.date_published);
    assert_eq!(back.cover_url, "");
    assert_eq!(back.chapters.len(), book.chapters.len());
    for (read, written) in back.chapters.iter().zip(book.chapters.iter()) {
        assert_eq!(read.identifier, written.identifier);
        assert_eq!(read.title, written.title);
        assert_eq!(read.date_published, written.date_published);
        assert_eq!(read.url, written.url);
        assert_eq!(read.content, written.content.as_deref().map(clean_html));
        assert_eq!(read.authors_note_start, written.authors_note_start.as_deref().map(clean_html));
        assert_eq!(read.authors_note_end, written.authors_note_end.as_deref().map(clean_html));
    }
    // Writing what was read and reading it again changes nothing more.
    let again = read(autebooks::archive::write(&back, vec![]).unwrap(), now);
    for (second, first) in again.chapters.iter().zip(back.chapters.iter()) {
        assert_eq!(second.identifier, first.identifier);
        assert_eq!(second.content, first.content);
    }
}

#[test]
fn a_chapter_of_this_library_is_read_by_its_marks() {
    let xhtml = "<?xml version=\"1.0\" encoding=\"UTF-8\"?>\n<!DOCTYPE html>\n<html xmlns=\"http://www.w3.org/1999/xhtml\"><head><title>One</title><meta name=\"generator\" content=\"autebook\" /><meta name=\"chapterurl\" content=\"https://www.royalroad.com/fiction/42/a-book/chapter/777/slug\" /><meta name=\"published\" content=\"2015-05-15T00:00:00+00:00\" /></head><body><h1 class=\"chapter-title\">One</h1><div class=\"authors-note-start\"><p>hi</p></div><div class=\"chapter-content\"><p>text</p></div></body></html>";
    let c = Chapter::extract_from_epub("101", xhtml, Timestamp { secs: 1, nanos: 0 });
    assert_eq!(c.identifier, "777");
    assert_eq!(c.title, "One");
    assert_eq!(c.url, "https://www.royalroad.com/fiction/42/a-book/chapter/777/slug");
    assert_eq!(c.date_published, Timestamp { secs: 1431648000, nanos: 0 });
    assert_eq!(c.content.as_deref(), Some("<p>text</p>"));
    assert_eq!(c.authors_note_start.as_deref(), Some("<p>hi</p>"));
    assert_eq!(c.authors_note_end, None);
}

#[test]
fn a_chapter_without_url_and_date_falls_back() {
    let xhtml = "<html><head><title>One</title><meta name=\"generator\" content=\"autebook\" /><meta name=\"published\" content=\"sometime\" /></head><body><div class=\"chapter-content\">x</div></body></html>";
    let now = Timestamp { secs: 99, nanos: 9 };
    let c = Chapter::extract_from_epub("file-7", xhtml, now);
    assert_eq!(c.identifier, "file-7");
    assert_eq!(c.url, "");
    assert_eq!(c.date_published, now);
    let short = "<html><head><meta name=\"chapterurl\" content=\"https://h.example/a/b\" /></head></html>";
    assert_eq!(Chapter::extract_from_epub("file-8", short, now).identifier, "file-8");
}

#[test]
fn a_chapter_of_another_generator_is_read_by_heuristics() {
    let xhtml = "<html><head><title>One</title><meta name=\"chapterurl\" content=\"https://www.royalroad.com/fiction/42/a-book/chapter/777/slug\" /></head><body><h3 class=\"fff_chapter_title\">One</h3><div class=\"author-note-portlet\"><p>first note</p></div><p>the text</p><div class=\"author-note-portlet\"><p>last note</p></div></body></html>";
    let c = Chapter::extract_from_epub("file", xhtml, Timestamp { secs: 1, nanos: 0 });
    assert_eq!(c.identifier, "777");
    assert_eq!(c.authors_note_start.as_deref(), Some("<p>first note</p>"));
    assert_eq!(c.authors_note_end.as_deref(), Some("<p>last note</p>"));
    assert_eq!(
        c.content.as_deref(),
        Some("<div class=\"author-note-portlet\"></div><p>the text</p><div class=\"author-note-portlet\"></div>")
    );
    // A single note is the closing note.
    let one = "<html><head><title>T</title></head><body><p>text</p><div class=\"author-note-portlet\"><i>bye</i></div></body></html>";
    let (content, start, end) = extract_from_fanficfare_generated_chapter(one, "T");
    assert_eq!(start, None);
    assert_eq!(end.as_deref(), Some("<i>bye</i>"));
    assert_eq!(content.as_deref(), Some("<p>text</p><div class=\"author-note-portlet\"></div>"));
    let none = "<html><head><title>T</title></head><body><p>text</p></body></html>";
    let (content, start, end) = extract_from_fanficfare_generated_chapter(none, "T");
    assert_eq!((start, end), (None, None));
    assert_eq!(content.as_deref(), Some("<p>text</p>"));
}

#[test]
fn small_helpers_of_reading() {
    let notes = Some(vec!["a".to_string(), "b".to_string(), "c".to_string()]);
    assert_eq!(pick_note_from_end(&notes, 0), Some("c".to_string()));
    assert_eq!(pick_note_from_end(&notes, 1), Some("b".to_string()));
    assert_eq!(pick_note_from_end(&notes, 3), None);
    assert_eq!(pick_note_from_end(&None, 0), None);
    assert_eq!(unwrap_or_empty(None), "");
    assert_eq!(unwrap_or_empty(Some("x".to_string())), "x");
}

#[test]
fn the_title_page_and_the_navigation_hold_no_chapter() {
    let chapter_doc = |id: &str| Document {
        identifier: format!("{id}.xhtml"),
        xhtml: format!("<html><head><title>{id}</title><meta name=\"generator\" content=\"autebook\" /></head><body><div class=\"chapter-content\">c{id}</div></body></html>"),
    };
    let documents = vec![chapter_doc("title"), chapter_doc("1"), chapter_doc("nav"), chapter_doc("2")];
    let metadata = vec![
        ("title".to_string(), "T".to_string()),
        ("creator".to_string(), "A".to_string()),
        ("date".to_string(), "not a date".to_string()),
    ];
    let now = Timestamp { secs: 3, nanos: 4 };
    let b = Book::from_path(&metadata, "fallback".to_string(), &documents, now);
    assert_eq!(b.id, "fallback");
    assert_eq!(b.title, "T");
    assert_eq!(b.author, "A");
    assert_eq!(b.url, "");
    assert_eq!(b.date_published, now);
    assert_eq!(b.chapters.iter().map(|c| c.identifier.as_str()).collect::<Vec<_>>(), vec!["1", "2"]);
    assert_eq!(b.chapters[1].content.as_deref(), Some("c2"));
    assert!(Book::from_path(&metadata, "f".to_string(), &vec![], now).chapters.is_empty());
}

#[test]
fn a_failed_image_is_left_out_and_the_rest_goes_in() {
    let plan = assign_file_names(&urls(&[
        "https://h.example/a.png",
        "https://h.example/b.png",
        "../images/c.png",
        "https://h.example/d.png",
    ]));
    let outcomes = vec![
        Ok(vec![1u8]),
        Err(Failure::ImageFormat { reason: "Skipping html.".to_string() }),
        Err(Failure::InvalidUrl { url: "../images/c.png".to_string() }),
        Ok(vec![4u8, 4]),
    ];
    let (images, failures) = gather_images(plan, outcomes);
    assert_eq!(
        images.iter().map(|i| (i.filename.as_str(), i.data.clone())).collect::<Vec<_>>(),
        vec![("a.png", vec![1u8]), ("d.png", vec![4u8, 4])]
    );
    assert_eq!(failures.len(), 1);
    assert!(matches!(failures[0], Failure::ImageFormat { .. }));
    // The archive is written without the images that failed.
    let entries = assemble(&book(), images).unwrap();
    let names = entry_names(&entries);
    assert!(names.contains(&"OEBPS/images/a.png".to_string()));
    assert!(!names.iter().any(|n| n.ends_with("b.png") || n.ends_with("c.png")));
    assert!(pack(&entries).is_ok());
    let (images, failures) = gather_images(vec![], vec![Ok(vec![1u8])]);
    assert!(images.is_empty() && failures.is_empty());
}

#[test]
fn the_packer_takes_entries_of_distinct_names() {
    let entry = |name: &str| Entry { name: name.to_string(), data: vec![1, 2, 3], compressed: true };
    assert!(pack(&vec![entry("a"), entry("b"), entry("a/b")]).is_ok());
    assert!(pack(&vec![]).is_ok());
    assert!(matches!(pack(&vec![entry("a"), entry("b"), entry("a")]), Err(Failure::Format { .. })));
    // A name too long for the header of an entry is refused.
    let long = "n".repeat(70_000);
    assert!(matches!(pack(&vec![entry(&long)]), Err(Failure::Format { .. })));
    // Two chapters of one identifier cannot be written into one archive.
    let mut twice = book();
    twice.chapters[1].identifier = "101".to_string();
    assert!(assemble(&twice, vec![]).is_ok());
    assert!(matches!(autebooks::archive::write(&twice, vec![]), Err(Failure::Format { .. })));
    assert!(autebooks::archive::write(&book(), vec![]).is_ok());
}
