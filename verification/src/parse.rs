//! Reading a chapter back out of a chapter document of an archive, whether
//! this library wrote it or another generator did.

use crate::book::{
    chapter_views, lemma_chapter_views_push, Book, BookView, Chapter, ChapterView, Timestamp,
};
use crate::dates::parsed_instant;
use crate::html::{
    first_attribute, first_non_empty, select_inner_html, selected_attributes,
    selected_inner_html, QuickSelect,
};
use crate::links::{nth_segment, segment_at};
use crate::source::{first_named, metadata_value};
use crate::text::{chars_of, opt_texts, opt_view, replace, replaced, same_text, text_of, texts};
use vstd::prelude::*;
use vstd::string::StringExecFns;

verus! {

/// The value of the `generator` meta tag in the documents this library writes.
pub const GENERATOR: &'static str = "autebook";

/// `text`, or the empty text where there is none.
pub open spec fn or_empty(text: Option<Seq<char>>) -> Seq<char> {
    match text {
        Some(t) => t,
        None => Seq::empty(),
    }
}

/// `text`, or an empty string where there is none.
pub fn unwrap_or_empty(text: Option<String>) -> (r: String)
    ensures
        r@ == or_empty(opt_view(text)),
{
    match text {
        Some(t) => t,
        None => String::new(),
    }
}

/// The title of a chapter document: the inner HTML of its `title` element.
pub open spec fn document_title(xhtml: Seq<char>) -> Seq<char> {
    or_empty(first_non_empty(selected_inner_html(xhtml, "title"@)))
}

/// The source URL that a chapter document carries in its `chapterurl` meta tag.
pub open spec fn document_url(xhtml: Seq<char>) -> Seq<char> {
    or_empty(first_attribute(selected_attributes(xhtml, "meta[name=chapterurl]"@, "content"@)))
}

/// The instant that a chapter document carries in its `published` meta tag,
/// or `now` where it carries none that can be read.
pub open spec fn document_date(xhtml: Seq<char>, now: Timestamp) -> Timestamp {
    match first_attribute(selected_attributes(xhtml, "meta[name=published]"@, "content"@)) {
        Some(text) => match parsed_instant(text) {
            Some(instant) => instant,
            None => now,
        },
        None => now,
    }
}

/// The identifier of the chapter in a document: the fifth path segment of its
/// source URL, or the name of its file where the URL has none.
pub open spec fn document_identifier(xhtml: Seq<char>, file_identifier: Seq<char>) -> Seq<char> {
    match segment_at(document_url(xhtml), 4) {
        Some(id) => id,
        None => file_identifier,
    }
}

/// The document carries the generator marker of this library.
pub open spec fn is_native(xhtml: Seq<char>) -> bool {
    first_attribute(selected_attributes(xhtml, "meta[name=generator]"@, "content"@)) == Some(
        GENERATOR@,
    )
}

/// The note at `back` places from the end of `notes`, counted from zero.
pub open spec fn note_from_end(notes: Option<Seq<Seq<char>>>, back: int) -> Option<Seq<char>> {
    match notes {
        Some(found) => if 0 <= back < found.len() {
            Some(found[found.len() - 1 - back])
        } else {
            None
        },
        None => None,
    }
}

/// `text` without `note`, where there is one.
pub open spec fn without_note(text: Seq<char>, note: Option<Seq<char>>) -> Seq<char> {
    match note {
        Some(n) => replaced(text, n, Seq::empty()),
        None => text,
    }
}

/// The heading that the foreign generator puts above a chapter titled `title`.
pub open spec fn foreign_heading(title: Seq<char>) -> Seq<char> {
    "<h3 class=\"fff_chapter_title\">"@ + title + "</h3>"@
}

/// What a chapter document of a foreign generator holds: the last element of
/// the author's-note class is the closing note, the one before it the opening
/// note, and the body without the chapter heading and without the notes is
/// the content.
pub open spec fn foreign_parts(xhtml: Seq<char>, title: Seq<char>) -> (
    Option<Seq<char>>,
    Option<Seq<char>>,
    Option<Seq<char>>,
) {
    let notes = selected_inner_html(xhtml, ".author-note-portlet"@);
    let end = note_from_end(notes, 0);
    let start = note_from_end(notes, 1);
    let content = match first_non_empty(selected_inner_html(xhtml, "body"@)) {
        Some(body) => Some(
            without_note(
                without_note(replaced(body, foreign_heading(title), Seq::empty()), start),
                end,
            ),
        ),
        None => None,
    };
    (content, start, end)
}

/// What a chapter document written by this library holds: the inner HTML of
/// the elements it tagged as content, opening note and closing note.
pub open spec fn native_parts(xhtml: Seq<char>) -> (
    Option<Seq<char>>,
    Option<Seq<char>>,
    Option<Seq<char>>,
) {
    (
        first_non_empty(selected_inner_html(xhtml, ".chapter-content"@)),
        first_non_empty(selected_inner_html(xhtml, ".authors-note-start"@)),
        first_non_empty(selected_inner_html(xhtml, ".authors-note-end"@)),
    )
}

/// The chapter that a chapter document holds.
pub open spec fn extracted(file_identifier: Seq<char>, xhtml: Seq<char>, now: Timestamp) -> ChapterView {
    let parts = if is_native(xhtml) {
        native_parts(xhtml)
    } else {
        foreign_parts(xhtml, document_title(xhtml))
    };
    ChapterView {
        identifier: document_identifier(xhtml, file_identifier),
        date_published: document_date(xhtml, now),
        title: document_title(xhtml),
        url: document_url(xhtml),
        content: parts.0,
        authors_note_start: parts.1,
        authors_note_end: parts.2,
    }
}

/// The note at `back` places from the end of `notes`.
pub fn pick_note_from_end(notes: &Option<Vec<String>>, back: usize) -> (r: Option<String>)
    ensures
        opt_view(r) == note_from_end(opt_texts(*notes), back as int),
{
    match notes {
        Some(found) => if back < found.len() {
            let at = found.len() - 1 - back;
            assert(texts(found@)[at as int] == found@[at as int]@);
            Some(found[at].clone())
        } else {
            None
        },
        None => None,
    }
}

fn remove(text: String, part: &str) -> (r: String)
    ensures
        r@ == replaced(text@, part@, Seq::empty()),
{
    let chars = chars_of(text.as_str());
    let part = chars_of(part);
    let nothing: Vec<char> = Vec::new();
    let out = replace(chars.as_slice(), part.as_slice(), nothing.as_slice());
    text_of(out.as_slice())
}

fn remove_note(text: String, note: &Option<String>) -> (r: String)
    ensures
        r@ == without_note(text@, opt_view(*note)),
{
    match note {
        Some(n) => remove(text, n.as_str()),
        None => text,
    }
}

/// Takes a chapter document of a foreign generator apart into content,
/// opening note and closing note.
pub fn extract_from_fanficfare_generated_chapter(xhtml: &str, title: &str) -> (r: (
    Option<String>,
    Option<String>,
    Option<String>,
))
    ensures
        (opt_view(r.0), opt_view(r.1), opt_view(r.2)) == foreign_parts(xhtml@, title@),
{
    let notes = select_inner_html(xhtml, ".author-note-portlet");
    let end = pick_note_from_end(&notes, 0);
    let start = pick_note_from_end(&notes, 1);
    let content = match xhtml.get_inner_html_of("body") {
        Some(body) => {
            let mut heading = String::from_str("<h3 class=\"fff_chapter_title\">");
            heading.append(title);
            heading.append("</h3>");
            let body = remove(body, heading.as_str());
            let body = remove_note(body, &start);
            Some(remove_note(body, &end))
        },
        None => None,
    };
    (content, start, end)
}

impl Chapter {
    /// Reads a chapter out of the chapter document `xhtml` of an archive.
    /// `file_identifier` is the name of the document in the archive without
    /// its extension; `now` stands in for a date that the document lacks.
    pub fn extract_from_epub(file_identifier: &str, xhtml: &str, now: Timestamp) -> (r: Chapter)
        ensures
            r@ == extracted(file_identifier@, xhtml@, now),
    {
        let title = unwrap_or_empty(xhtml.get_inner_html_of("title"));
        let url = unwrap_or_empty(xhtml.get_meta_content_of("meta[name=chapterurl]"));
        let date_published = match xhtml.get_meta_content_of("meta[name=published]") {
            Some(text) => match Timestamp::parse_from_rfc3339(text.as_str()) {
                Some(instant) => instant,
                None => now,
            },
            None => now,
        };
        let identifier = match nth_segment(url.as_str(), 4) {
            Some(id) => id,
            None => file_identifier.to_owned(),
        };
        let native = match xhtml.get_meta_content_of("meta[name=generator]") {
            Some(generator) => same_text(generator.as_str(), GENERATOR),
            None => false,
        };
        let (content, authors_note_start, authors_note_end) = if native {
            (
                xhtml.get_inner_html_of(".chapter-content"),
                xhtml.get_inner_html_of(".authors-note-start"),
                xhtml.get_inner_html_of(".authors-note-end"),
            )
        } else {
            extract_from_fanficfare_generated_chapter(xhtml, title.as_str())
        };
        Chapter {
            identifier,
            date_published,
            title,
            url,
            content,
            authors_note_start,
            authors_note_end,
        }
    }
}

/// One document of the reading order of an archive: the identifier under
/// which the manifest lists it, and its text.
#[derive(Debug)]
pub struct Document {
    pub identifier: String,
    pub xhtml: String,
}

/// The mathematical value of a [`Document`].
pub struct DocumentView {
    pub identifier: Seq<char>,
    pub xhtml: Seq<char>,
}

impl View for Document {
    type V = DocumentView;

    open spec fn view(&self) -> DocumentView {
        DocumentView { identifier: self.identifier@, xhtml: self.xhtml@ }
    }
}

/// The values of a list of documents.
pub open spec fn document_views(documents: Seq<Document>) -> Seq<DocumentView> {
    documents.map_values(|d: Document| d@)
}

/// The name of the chapter in a document: the identifier of the document
/// without the extension of chapter files.
pub open spec fn chapter_name(document: DocumentView) -> Seq<char> {
    replaced(document.identifier, ".xhtml"@, Seq::empty())
}

/// The chapters in the first `n` documents of the reading order. The first
/// document is the title page and holds no chapter; neither does the
/// navigation document.
pub open spec fn chapters_read(documents: Seq<DocumentView>, n: nat, now: Timestamp) -> Seq<
    ChapterView,
>
    decreases n,
{
    if n <= 1 {
        Seq::empty()
    } else {
        let before = chapters_read(documents, (n - 1) as nat, now);
        let name = chapter_name(documents[n - 1]);
        if name == "nav"@ {
            before
        } else {
            before.push(extracted(name, documents[n - 1].xhtml, now))
        }
    }
}

/// The date that the metadata of an archive gives for the book, or `now`
/// where it gives none that can be read.
pub open spec fn metadata_date(metadata: Seq<(String, String)>, now: Timestamp) -> Timestamp {
    match first_named(metadata, "date"@) {
        Some(text) => match parsed_instant(text) {
            Some(instant) => instant,
            None => now,
        },
        None => now,
    }
}

/// The book that an archive holds. `fallback_id` is the identifier of a
/// book whose archive names none.
pub open spec fn book_read(
    metadata: Seq<(String, String)>,
    fallback_id: Seq<char>,
    documents: Seq<DocumentView>,
    now: Timestamp,
) -> BookView {
    BookView {
        id: match first_named(metadata, "identifier"@) {
            Some(id) => id,
            None => fallback_id,
        },
        url: or_empty(first_named(metadata, "source"@)),
        title: or_empty(first_named(metadata, "title"@)),
        author: or_empty(first_named(metadata, "creator"@)),
        description: or_empty(first_named(metadata, "description"@)),
        date_published: metadata_date(metadata, now),
        cover_url: Seq::empty(),
        chapters: chapters_read(documents, documents.len(), now),
    }
}

impl Book {
    /// The book that the archive at some path holds, put together from what
    /// was read out of the archive: its metadata as pairs of name and value,
    /// and the documents of its reading order. `fallback_id` identifies a
    /// book whose archive names no identifier; `now` stands in for every
    /// date that the archive lacks.
    pub fn from_path(
        metadata: &Vec<(String, String)>,
        fallback_id: String,
        documents: &Vec<Document>,
        now: Timestamp,
    ) -> (r: Book)
        ensures
            r@ == book_read(metadata@, fallback_id@, document_views(documents@), now),
    {
        let id = match metadata_value(metadata, "identifier") {
            Some(id) => id,
            None => fallback_id,
        };
        let date_published = match metadata_value(metadata, "date") {
            Some(text) => match Timestamp::parse_from_rfc3339(text.as_str()) {
                Some(instant) => instant,
                None => now,
            },
            None => now,
        };
        let mut chapters: Vec<Chapter> = Vec::new();
        let ghost all = document_views(documents@);
        let mut i: usize = 0;
        assert(chapter_views(chapters@) =~= chapters_read(all, 0, now));
        while i < documents.len()
            invariant
                i <= documents@.len(),
                all == document_views(documents@),
                chapter_views(chapters@) == chapters_read(all, i as nat, now),
            decreases documents@.len() - i,
        {
            assert(all[i as int] == documents@[i as int]@);
            if i > 0 {
                let name = remove(documents[i].identifier.clone(), ".xhtml");
                if !same_text(name.as_str(), "nav") {
                    let ghost before = chapters@;
                    let chapter = Chapter::extract_from_epub(
                        name.as_str(),
                        documents[i].xhtml.as_str(),
                        now,
                    );
                    chapters.push(chapter);
                    proof {
                        lemma_chapter_views_push(before, chapter);
                    }
                }
            }
            i = i + 1;
        }
        Book {
            id,
            url: unwrap_or_empty(metadata_value(metadata, "source")),
            title: unwrap_or_empty(metadata_value(metadata, "title")),
            author: unwrap_or_empty(metadata_value(metadata, "creator")),
            description: unwrap_or_empty(metadata_value(metadata, "description")),
            date_published,
            cover_url: String::new(),
            chapters,
        }
    }
}


} // verus!
