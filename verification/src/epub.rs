//! The documents of an EPUB archive, each as a list of XML events, and the
//! archive's list of entries.

use crate::book::{chapter_views, Book, BookView, Chapter, ChapterView};
use crate::failure::Failure;
use crate::images::{extract_file_name, file_name_of, localized, replace_url_with_path};
use crate::links::{replace_forbidden, without_forbidden};
use crate::markup::{
    characters, element, emit, emit_all, emit_leaf, emit_text_element, end_element, event_views,
    leaf, no_events, text_element, Event, EventView,
};
use crate::parse::{or_empty, GENERATOR};
use crate::sanitize::{clean_html, sanitized};
use crate::text::{
    after_last, chars_of, concat_indexed, decimal, decimal_text, opt_view, suffix_after_last,
    text_of, texts,
};
use vstd::prelude::*;
use vstd::string::{StrSliceExecFns, StringExecFns, StringSliceAdditionalSpecFns};

verus! {

/// The doctype line that opens every XHTML document of the archive.
pub const DOCTYPE: &'static str = "\n<!DOCTYPE html>\n";

/// The namespace of XHTML.
pub const XHTML_NAMESPACE: &'static str = "http://www.w3.org/1999/xhtml";

/// `a` followed by `b` followed by `c`.
pub fn concat3(a: &str, b: &str, c: &str) -> (r: String)
    ensures
        r@ == a@ + b@ + c@,
{
    let mut out = String::from_str(a);
    out.append(b);
    out.append(c);
    out
}

/// The name of the archive for a book titled `title`, where none is given.
pub open spec fn default_file_name(title: Seq<char>) -> Seq<char> {
    without_forbidden(title) + ".epub"@
}

/// The name of the archive for a book titled `title`: the title with
/// forbidden characters replaced, and the extension `.epub`.
pub fn output_file_name(title: &str) -> (r: String)
    ensures
        r@ == default_file_name(title@),
{
    let mut name = replace_forbidden(title);
    name.append(".epub");
    name
}

/// Where the document of the chapter `identifier` lies, seen from the package document.
pub open spec fn chapter_href(identifier: Seq<char>) -> Seq<char> {
    "text/"@ + identifier + ".xhtml"@
}

/// The events of `META-INF/container.xml`, which points at the package document.
pub open spec fn container_document() -> Seq<EventView> {
    seq![
        element("container"@).attr(
            "xmlns:a"@,
            "urn:oasis:names:tc:opendocument:xmlns:container"@,
        ).attr("version"@, "1.0"@),
        element("rootfiles"@),
        element("rootfile"@).attr("full-path"@, "OEBPS/content.opf"@).attr(
            "media-type"@,
            "application/oebps-package+xml"@,
        ),
        end_element(),
        end_element(),
        end_element(),
    ]
}

/// The events of `META-INF/container.xml`.
pub fn container_xml() -> (r: Vec<Event>)
    ensures
        event_views(r@) == container_document(),
{
    let mut out = no_events();
    emit(
        &mut out,
        Event::start_element("container").attr(
            "xmlns:a",
            "urn:oasis:names:tc:opendocument:xmlns:container",
        ).attr("version", "1.0"),
    );
    emit(&mut out, Event::start_element("rootfiles"));
    emit(
        &mut out,
        Event::start_element("rootfile").attr("full-path", "OEBPS/content.opf").attr(
            "media-type",
            "application/oebps-package+xml",
        ),
    );
    emit(&mut out, Event::end_element());
    emit(&mut out, Event::end_element());
    emit(&mut out, Event::end_element());
    assert(event_views(out@) =~= container_document());
    out
}

/// The opening of the title page up to the cover image.
pub open spec fn title_head(title: Seq<char>) -> Seq<EventView> {
    seq![
        characters(DOCTYPE@),
        element("html"@).attr("xmlns"@, XHTML_NAMESPACE@),
        element("head"@),
    ] + text_element(element("title"@), title) + leaf(
        element("link"@).attr("rel"@, "stylesheet"@).attr("type"@, "text/css"@).attr(
            "href"@,
            "../styles/stylesheet.css"@,
        ),
    ) + seq![end_element(), element("body"@)]
}

/// The events of the title page: the cover image, the title and the author.
pub open spec fn title_document(book: BookView) -> Seq<EventView> {
    title_head(book.title) + leaf(
        element("img"@).attr(
            "src"@,
            "../images/"@ + or_empty(file_name_of(book.cover_url)),
        ).attr("alt"@, "Cover"@).attr("class"@, "cover"@),
    ) + text_element(element("h1"@).attr("class"@, "title"@), book.title) + text_element(
        element("h2"@).attr("class"@, "author"@),
        book.author,
    ) + seq![end_element(), end_element()]
}

fn title_head_events(title: &str) -> (r: Vec<Event>)
    ensures
        event_views(r@) == title_head(title@),
{
    let mut out = no_events();
    emit(&mut out, Event::characters(DOCTYPE));
    emit(&mut out, Event::start_element("html").attr("xmlns", XHTML_NAMESPACE));
    emit(&mut out, Event::start_element("head"));
    assert(event_views(out@) =~= seq![
        characters(DOCTYPE@),
        element("html"@).attr("xmlns"@, XHTML_NAMESPACE@),
        element("head"@),
    ]);
    emit_text_element(&mut out, Event::start_element("title"), title);
    emit_leaf(
        &mut out,
        Event::start_element("link").attr("rel", "stylesheet").attr("type", "text/css").attr(
            "href",
            "../styles/stylesheet.css",
        ),
    );
    let ghost before = event_views(out@);
    emit(&mut out, Event::end_element());
    emit(&mut out, Event::start_element("body"));
    assert(event_views(out@) =~= before + seq![end_element(), element("body"@)]);
    out
}

/// The events of the title page.
pub fn title_html(book: &Book) -> (r: Vec<Event>)
    ensures
        event_views(r@) == title_document(book@),
{
    let cover_file_name = match extract_file_name(book.cover_url.as_str()) {
        Ok(name) => name,
        Err(_) => String::new(),
    };
    let mut source = String::from_str("../images/");
    source.append(cover_file_name.as_str());
    let mut out = title_head_events(book.title.as_str());
    emit_leaf(
        &mut out,
        Event::start_element("img").attr("src", source.as_str()).attr("alt", "Cover").attr(
            "class",
            "cover",
        ),
    );
    emit_text_element(
        &mut out,
        Event::start_element("h1").attr("class", "title"),
        book.title.as_str(),
    );
    emit_text_element(
        &mut out,
        Event::start_element("h2").attr("class", "author"),
        book.author.as_str(),
    );
    let ghost before = event_views(out@);
    emit(&mut out, Event::end_element());
    emit(&mut out, Event::end_element());
    assert(event_views(out@) =~= before + seq![end_element(), end_element()]);
    out
}

/// A `meta` element of the legacy table of contents.
pub open spec fn ncx_meta(name: Seq<char>, content: Seq<char>) -> Seq<EventView> {
    leaf(element("meta"@).attr("name"@, name).attr("content"@, content))
}

/// The opening of the legacy table of contents: its head, the title of the
/// book and the entry of the title page, which plays first.
pub open spec fn ncx_head(book: BookView) -> Seq<EventView> {
    seq![
        element("ncx"@).attr("xmlns"@, "http://www.daisy.org/z3986/2005/ncx/"@).attr(
            "version"@,
            "2005-1"@,
        ),
        element("head"@),
    ] + ncx_meta("dtb:uid"@, book.id) + ncx_meta("dtb:depth"@, "2"@) + ncx_meta(
        "dtb:totalPageCount"@,
        "0"@,
    ) + ncx_meta("dtb:maxPageNumber"@, "0"@) + seq![
        end_element(),
        element("docTitle"@),
        element("text"@),
        characters(book.title),
        end_element(),
        end_element(),
        element("navMap"@),
    ] + nav_point("cover"@, "0"@, "Cover"@, "text/title.xhtml"@)
}

/// One entry of the legacy table of contents.
pub open spec fn nav_point(
    id: Seq<char>,
    play_order: Seq<char>,
    label: Seq<char>,
    source: Seq<char>,
) -> Seq<EventView> {
    seq![
        element("navPoint"@).attr("id"@, id).attr("playOrder"@, play_order),
        element("navLabel"@),
        element("text"@),
        characters(label),
        end_element(),
        end_element(),
        element("content"@).attr("src"@, source),
        end_element(),
        end_element(),
    ]
}

/// The entry of the chapter at `index` in the legacy table of contents. The
/// title page plays at 0, so the chapter at `index` plays at `index + 1`.
pub open spec fn chapter_nav_point(chapters: Seq<ChapterView>, index: int) -> Seq<EventView> {
    nav_point(
        chapters[index].identifier,
        decimal((index + 1) as nat),
        chapters[index].title,
        chapter_href(chapters[index].identifier),
    )
}

/// The events of `toc.ncx`, the legacy table of contents: one entry for the
/// title page and one for every chapter, in the order of the book.
pub open spec fn ncx_document(book: BookView) -> Seq<EventView> {
    ncx_head(book) + concat_indexed(
        book.chapters.len(),
        |i: int| chapter_nav_point(book.chapters, i),
    ) + seq![end_element(), end_element()]
}

fn emit_ncx_meta(out: &mut Vec<Event>, name: &str, content: &str)
    ensures
        event_views(final(out)@) == event_views(old(out)@) + ncx_meta(name@, content@),
{
    emit_leaf(out, Event::start_element("meta").attr("name", name).attr("content", content));
}

fn nav_point_events(id: &str, play_order: &str, label: &str, source: &str) -> (r: Vec<Event>)
    ensures
        event_views(r@) == nav_point(id@, play_order@, label@, source@),
{
    let mut out = no_events();
    emit(&mut out, Event::start_element("navPoint").attr("id", id).attr("playOrder", play_order));
    emit(&mut out, Event::start_element("navLabel"));
    emit(&mut out, Event::start_element("text"));
    emit(&mut out, Event::characters(label));
    emit(&mut out, Event::end_element());
    emit(&mut out, Event::end_element());
    emit(&mut out, Event::start_element("content").attr("src", source));
    emit(&mut out, Event::end_element());
    emit(&mut out, Event::end_element());
    assert(event_views(out@) =~= nav_point(id@, play_order@, label@, source@));
    out
}

fn ncx_head_events(book: &Book) -> (r: Vec<Event>)
    ensures
        event_views(r@) == ncx_head(book@),
{
    let mut out = no_events();
    emit(
        &mut out,
        Event::start_element("ncx").attr("xmlns", "http://www.daisy.org/z3986/2005/ncx/").attr(
            "version",
            "2005-1",
        ),
    );
    emit(&mut out, Event::start_element("head"));
    assert(event_views(out@) =~= seq![
        element("ncx"@).attr("xmlns"@, "http://www.daisy.org/z3986/2005/ncx/"@).attr(
            "version"@,
            "2005-1"@,
        ),
        element("head"@),
    ]);
    emit_ncx_meta(&mut out, "dtb:uid", book.id.as_str());
    emit_ncx_meta(&mut out, "dtb:depth", "2");
    emit_ncx_meta(&mut out, "dtb:totalPageCount", "0");
    emit_ncx_meta(&mut out, "dtb:maxPageNumber", "0");
    let ghost before = event_views(out@);
    emit(&mut out, Event::end_element());
    emit(&mut out, Event::start_element("docTitle"));
    emit(&mut out, Event::start_element("text"));
    emit(&mut out, Event::characters(book.title.as_str()));
    emit(&mut out, Event::end_element());
    emit(&mut out, Event::end_element());
    emit(&mut out, Event::start_element("navMap"));
    assert(event_views(out@) =~= before + seq![
        end_element(),
        element("docTitle"@),
        element("text"@),
        characters(book@.title),
        end_element(),
        end_element(),
        element("navMap"@),
    ]);
    emit_all(&mut out, nav_point_events("cover", "0", "Cover", "text/title.xhtml"));
    out
}

/// The events of `toc.ncx`.
pub fn toc_ncx(book: &Book) -> (r: Vec<Event>)
    ensures
        event_views(r@) == ncx_document(book@),
{
    let mut out = ncx_head_events(book);
    let mut points = no_events();
    let ghost chapters = book@.chapters;
    let ghost block = |i: int| chapter_nav_point(chapters, i);
    let mut i: usize = 0;
    while i < book.chapters.len()
        invariant
            i <= book.chapters@.len(),
            chapters == chapter_views(book.chapters@),
            block == (|i: int| chapter_nav_point(chapters, i)),
            event_views(points@) == concat_indexed(i as nat, block),
        decreases book.chapters@.len() - i,
    {
        let chapter = &book.chapters[i];
        assert(chapters[i as int] == chapter@);
        let order = text_of(decimal_text((i + 1) as u64).as_slice());
        let source = concat3("text/", chapter.identifier.as_str(), ".xhtml");
        emit_all(
            &mut points,
            nav_point_events(
                chapter.identifier.as_str(),
                order.as_str(),
                chapter.title.as_str(),
                source.as_str(),
            ),
        );
        assert(block(i as int) == chapter_nav_point(chapters, i as int));
        i = i + 1;
    }
    emit_all(&mut out, points);
    let ghost before = event_views(out@);
    emit(&mut out, Event::end_element());
    emit(&mut out, Event::end_element());
    assert(event_views(out@) =~= before + seq![end_element(), end_element()]);
    out
}

/// The opening of the navigation document, up to the list of chapters.
pub open spec fn nav_head() -> Seq<EventView> {
    seq![
        characters(DOCTYPE@),
        element("html"@).attr("xmlns"@, XHTML_NAMESPACE@).attr(
            "xmlns:epub"@,
            "http://www.idpf.org/2007/ops"@,
        ).attr("lang"@, "en"@).attr("xml:lang"@, "en"@),
        element("head"@),
        element("title"@),
        characters("ePub NAV"@),
        end_element(),
        element("meta"@).attr("charset"@, "utf-8"@),
        end_element(),
        end_element(),
        element("body"@).attr("epub:type"@, "frontmatter"@),
        element("nav"@).attr("epub:type"@, "toc"@).attr("id"@, "toc"@).attr("role"@, "doc-toc"@),
        element("h1"@),
        characters("Table of Contents"@),
        end_element(),
        element("ol"@),
    ]
}

/// The entry of one chapter in the navigation document.
pub open spec fn nav_entry(chapter: ChapterView) -> Seq<EventView> {
    seq![
        element("li"@),
        element("a"@).attr("href"@, chapter_href(chapter.identifier)),
        characters(chapter.title),
        end_element(),
        end_element(),
    ]
}

/// The events of `nav.xhtml`, the navigation document: one entry for every
/// chapter, in the order of the book.
pub open spec fn nav_document(book: BookView) -> Seq<EventView> {
    nav_head() + concat_indexed(book.chapters.len(), |i: int| nav_entry(book.chapters[i])) + seq![
        end_element(),
        end_element(),
        end_element(),
        end_element(),
    ]
}

fn nav_head_events() -> (r: Vec<Event>)
    ensures
        event_views(r@) == nav_head(),
{
    let mut out = no_events();
    emit(&mut out, Event::characters(DOCTYPE));
    emit(
        &mut out,
        Event::start_element("html").attr("xmlns", XHTML_NAMESPACE).attr(
            "xmlns:epub",
            "http://www.idpf.org/2007/ops",
        ).attr("lang", "en").attr("xml:lang", "en"),
    );
    emit(&mut out, Event::start_element("head"));
    emit(&mut out, Event::start_element("title"));
    emit(&mut out, Event::characters("ePub NAV"));
    emit(&mut out, Event::end_element());
    emit(&mut out, Event::start_element("meta").attr("charset", "utf-8"));
    emit(&mut out, Event::end_element());
    emit(&mut out, Event::end_element());
    emit(&mut out, Event::start_element("body").attr("epub:type", "frontmatter"));
    emit(
        &mut out,
        Event::start_element("nav").attr("epub:type", "toc").attr("id", "toc").attr(
            "role",
            "doc-toc",
        ),
    );
    emit(&mut out, Event::start_element("h1"));
    emit(&mut out, Event::characters("Table of Contents"));
    emit(&mut out, Event::end_element());
    emit(&mut out, Event::start_element("ol"));
    assert(event_views(out@) =~= nav_head());
    out
}

fn nav_entry_events(chapter: &Chapter) -> (r: Vec<Event>)
    ensures
        event_views(r@) == nav_entry(chapter@),
{
    let source = concat3("text/", chapter.identifier.as_str(), ".xhtml");
    let mut out = no_events();
    emit(&mut out, Event::start_element("li"));
    emit(&mut out, Event::start_element("a").attr("href", source.as_str()));
    emit(&mut out, Event::characters(chapter.title.as_str()));
    emit(&mut out, Event::end_element());
    emit(&mut out, Event::end_element());
    assert(event_views(out@) =~= nav_entry(chapter@));
    out
}

/// The events of `nav.xhtml`.
pub fn toc_nav(book: &Book) -> (r: Vec<Event>)
    ensures
        event_views(r@) == nav_document(book@),
{
    let mut out = nav_head_events();
    let mut entries = no_events();
    let ghost chapters = book@.chapters;
    let ghost block = |i: int| nav_entry(chapters[i]);
    let mut i: usize = 0;
    while i < book.chapters.len()
        invariant
            i <= book.chapters@.len(),
            chapters == chapter_views(book.chapters@),
            block == (|i: int| nav_entry(chapters[i])),
            event_views(entries@) == concat_indexed(i as nat, block),
        decreases book.chapters@.len() - i,
    {
        let chapter = &book.chapters[i];
        assert(chapters[i as int] == chapter@);
        emit_all(&mut entries, nav_entry_events(chapter));
        assert(block(i as int) == nav_entry(chapters[i as int]));
        i = i + 1;
    }
    emit_all(&mut out, entries);
    let ghost before = event_views(out@);
    emit(&mut out, Event::end_element());
    emit(&mut out, Event::end_element());
    emit(&mut out, Event::end_element());
    emit(&mut out, Event::end_element());
    assert(event_views(out@) =~= before + seq![
        end_element(),
        end_element(),
        end_element(),
        end_element(),
    ]);
    out
}


/// One `item` of the manifest.
pub open spec fn manifest_item(id: Seq<char>, href: Seq<char>, media_type: Seq<char>) -> Seq<
    EventView,
> {
    leaf(element("item"@).attr("id"@, id).attr("href"@, href).attr("media-type"@, media_type))
}

/// The manifest item of the image stored under `name`: its media type is
/// `image/` and what stands behind the last dot of the name.
pub open spec fn image_item(name: Seq<char>) -> Seq<EventView> {
    manifest_item(name, "images/"@ + name, "image/"@ + after_last(name, '.'))
}

/// The manifest item of one chapter.
pub open spec fn chapter_item(chapter: ChapterView) -> Seq<EventView> {
    manifest_item(
        chapter.identifier,
        chapter_href(chapter.identifier),
        "application/xhtml+xml"@,
    )
}

/// One `itemref` of the spine.
pub open spec fn spine_ref(id: Seq<char>) -> Seq<EventView> {
    leaf(element("itemref"@).attr("idref"@, id))
}

/// The metadata of the package document.
pub open spec fn opf_metadata(book: BookView, date: Seq<char>) -> Seq<EventView> {
    seq![
        element("package"@).attr("xmlns"@, "http://www.idpf.org/2007/opf"@).attr(
            "version"@,
            "3.0"@,
        ).attr("unique-identifier"@, "bookid"@),
        element("metadata"@).attr("xmlns:dc"@, "http://purl.org/dc/elements/1.1/"@),
    ] + text_element(element("dc:title"@), book.title) + text_element(
        element("dc:creator"@),
        book.author,
    ) + text_element(element("dc:source"@), book.url) + text_element(
        element("dc:description"@),
        book.description,
    ) + text_element(element("dc:date"@), date) + text_element(
        element("dc:identifier"@).attr("id"@, "bookid"@),
        book.id,
    ) + text_element(element("dc:language"@), "en"@) + leaf(
        element("meta"@).attr("name"@, "cover"@).attr("content"@, "cover"@),
    ) + leaf(
        element("meta"@).attr("name"@, "primary-writing-mode"@).attr("content"@, "horizontal-lr"@),
    )
}

/// The items that every manifest opens with: the title page, the style
/// sheet, the legacy table of contents and the navigation document.
pub open spec fn opf_fixed_items() -> Seq<EventView> {
    seq![end_element(), element("manifest"@)] + manifest_item(
        "title"@,
        "text/title.xhtml"@,
        "application/xhtml+xml"@,
    ) + manifest_item("stylesheet"@, "styles/stylesheet.css"@, "text/css"@) + manifest_item(
        "toc"@,
        "toc.ncx"@,
        "application/xhtml+xml"@,
    ) + leaf(
        element("item"@).attr("id"@, "nav"@).attr("href"@, "nav.xhtml"@).attr(
            "media-type"@,
            "application/xhtml+xml"@,
        ).attr("properties"@, "nav"@),
    )
}

/// The events of `content.opf`, the package document: the metadata of the
/// book; a manifest with the fixed items, one item for every image in the
/// order given, and one for every chapter; a spine with the title page first
/// and the chapters behind it in the order of the book.
pub open spec fn opf_document(book: BookView, date: Seq<char>, images: Seq<Seq<char>>) -> Seq<
    EventView,
> {
    opf_metadata(book, date) + opf_fixed_items() + concat_indexed(
        images.len(),
        |i: int| image_item(images[i]),
    ) + concat_indexed(book.chapters.len(), |i: int| chapter_item(book.chapters[i])) + seq![
        end_element(),
        element("spine"@).attr("toc"@, "ncx"@),
    ] + spine_ref("title"@) + concat_indexed(
        book.chapters.len(),
        |i: int| spine_ref(book.chapters[i].identifier),
    ) + seq![end_element(), end_element()]
}

fn manifest_item_events(id: &str, href: &str, media_type: &str) -> (r: Vec<Event>)
    ensures
        event_views(r@) == manifest_item(id@, href@, media_type@),
{
    let mut out = no_events();
    emit_leaf(
        &mut out,
        Event::start_element("item").attr("id", id).attr("href", href).attr(
            "media-type",
            media_type,
        ),
    );
    assert(event_views(out@) =~= manifest_item(id@, href@, media_type@));
    out
}

fn opf_metadata_events(book: &Book, date: &str) -> (r: Vec<Event>)
    ensures
        event_views(r@) == opf_metadata(book@, date@),
{
    let mut out = no_events();
    emit(
        &mut out,
        Event::start_element("package").attr("xmlns", "http://www.idpf.org/2007/opf").attr(
            "version",
            "3.0",
        ).attr("unique-identifier", "bookid"),
    );
    emit(
        &mut out,
        Event::start_element("metadata").attr("xmlns:dc", "http://purl.org/dc/elements/1.1/"),
    );
    assert(event_views(out@) =~= seq![
        element("package"@).attr("xmlns"@, "http://www.idpf.org/2007/opf"@).attr(
            "version"@,
            "3.0"@,
        ).attr("unique-identifier"@, "bookid"@),
        element("metadata"@).attr("xmlns:dc"@, "http://purl.org/dc/elements/1.1/"@),
    ]);
    emit_text_element(&mut out, Event::start_element("dc:title"), book.title.as_str());
    emit_text_element(&mut out, Event::start_element("dc:creator"), book.author.as_str());
    emit_text_element(&mut out, Event::start_element("dc:source"), book.url.as_str());
    emit_text_element(&mut out, Event::start_element("dc:description"), book.description.as_str());
    emit_text_element(&mut out, Event::start_element("dc:date"), date);
    emit_text_element(
        &mut out,
        Event::start_element("dc:identifier").attr("id", "bookid"),
        book.id.as_str(),
    );
    emit_text_element(&mut out, Event::start_element("dc:language"), "en");
    emit_leaf(&mut out, Event::start_element("meta").attr("name", "cover").attr("content", "cover"));
    emit_leaf(
        &mut out,
        Event::start_element("meta").attr("name", "primary-writing-mode").attr(
            "content",
            "horizontal-lr",
        ),
    );
    out
}

fn opf_fixed_item_events() -> (r: Vec<Event>)
    ensures
        event_views(r@) == opf_fixed_items(),
{
    let mut out = no_events();
    emit(&mut out, Event::end_element());
    emit(&mut out, Event::start_element("manifest"));
    assert(event_views(out@) =~= seq![end_element(), element("manifest"@)]);
    emit_all(&mut out, manifest_item_events("title", "text/title.xhtml", "application/xhtml+xml"));
    emit_all(&mut out, manifest_item_events("stylesheet", "styles/stylesheet.css", "text/css"));
    emit_all(&mut out, manifest_item_events("toc", "toc.ncx", "application/xhtml+xml"));
    emit_leaf(
        &mut out,
        Event::start_element("item").attr("id", "nav").attr("href", "nav.xhtml").attr(
            "media-type",
            "application/xhtml+xml",
        ).attr("properties", "nav"),
    );
    out
}

fn image_item_events(name: &str) -> (r: Vec<Event>)
    ensures
        event_views(r@) == image_item(name@),
{
    let mut href = String::from_str("images/");
    href.append(name);
    let chars = chars_of(name);
    let extension = text_of(suffix_after_last(chars.as_slice(), '.').as_slice());
    let mut media_type = String::from_str("image/");
    media_type.append(extension.as_str());
    manifest_item_events(name, href.as_str(), media_type.as_str())
}

fn image_item_list(image_filenames: &Vec<String>) -> (r: Vec<Event>)
    ensures
        event_views(r@) == concat_indexed(
            image_filenames@.len(),
            |i: int| image_item(texts(image_filenames@)[i]),
        ),
{
    let mut out = no_events();
    let ghost names = texts(image_filenames@);
    let ghost block = |i: int| image_item(names[i]);
    let mut i: usize = 0;
    while i < image_filenames.len()
        invariant
            i <= image_filenames@.len(),
            names == texts(image_filenames@),
            block == (|i: int| image_item(names[i])),
            event_views(out@) == concat_indexed(i as nat, block),
        decreases image_filenames@.len() - i,
    {
        assert(names[i as int] == image_filenames@[i as int]@);
        emit_all(&mut out, image_item_events(image_filenames[i].as_str()));
        assert(block(i as int) == image_item(names[i as int]));
        i = i + 1;
    }
    out
}

fn chapter_item_list(book: &Book) -> (r: Vec<Event>)
    ensures
        event_views(r@) == concat_indexed(
            book@.chapters.len(),
            |i: int| chapter_item(book@.chapters[i]),
        ),
{
    let mut out = no_events();
    let ghost chapters = book@.chapters;
    let ghost block = |i: int| chapter_item(chapters[i]);
    let mut i: usize = 0;
    while i < book.chapters.len()
        invariant
            i <= book.chapters@.len(),
            chapters == chapter_views(book.chapters@),
            block == (|i: int| chapter_item(chapters[i])),
            event_views(out@) == concat_indexed(i as nat, block),
        decreases book.chapters@.len() - i,
    {
        let chapter = &book.chapters[i];
        assert(chapters[i as int] == chapter@);
        let href = concat3("text/", chapter.identifier.as_str(), ".xhtml");
        emit_all(
            &mut out,
            manifest_item_events(
                chapter.identifier.as_str(),
                href.as_str(),
                "application/xhtml+xml",
            ),
        );
        assert(block(i as int) == chapter_item(chapters[i as int]));
        i = i + 1;
    }
    out
}

fn spine_ref_list(book: &Book) -> (r: Vec<Event>)
    ensures
        event_views(r@) == concat_indexed(
            book@.chapters.len(),
            |i: int| spine_ref(book@.chapters[i].identifier),
        ),
{
    let mut out = no_events();
    let ghost chapters = book@.chapters;
    let ghost block = |i: int| spine_ref(chapters[i].identifier);
    let mut i: usize = 0;
    while i < book.chapters.len()
        invariant
            i <= book.chapters@.len(),
            chapters == chapter_views(book.chapters@),
            block == (|i: int| spine_ref(chapters[i].identifier)),
            event_views(out@) == concat_indexed(i as nat, block),
        decreases book.chapters@.len() - i,
    {
        let chapter = &book.chapters[i];
        assert(chapters[i as int] == chapter@);
        emit_leaf(
            &mut out,
            Event::start_element("itemref").attr("idref", chapter.identifier.as_str()),
        );
        assert(block(i as int) == spine_ref(chapters[i as int].identifier));
        i = i + 1;
    }
    out
}

/// The events of `content.opf`. `image_filenames` are the names of the images
/// that the archive holds, in the order in which the manifest lists them.
/// Fails where the date of the book cannot be written as text.
pub fn content_opf(book: &Book, image_filenames: &Vec<String>) -> (r: Result<Vec<Event>, Failure>)
    ensures
        match r {
            Ok(events) => book@.date_published.rfc3339() matches Some(date) && event_views(events@)
                == opf_document(book@, date, texts(image_filenames@)),
            Err(e) => book@.date_published.rfc3339() is None && e is Format,
        },
{
    let date = match book.date_published.to_rfc3339() {
        Some(date) => date,
        None => {
            return Err(
                Failure::Format { reason: "the date of the book cannot be written".to_owned() },
            );
        },
    };
    let mut out = opf_metadata_events(book, date.as_str());
    emit_all(&mut out, opf_fixed_item_events());
    emit_all(&mut out, image_item_list(image_filenames));
    emit_all(&mut out, chapter_item_list(book));
    let ghost before = event_views(out@);
    emit(&mut out, Event::end_element());
    emit(&mut out, Event::start_element("spine").attr("toc", "ncx"));
    assert(event_views(out@) =~= before + seq![
        end_element(),
        element("spine"@).attr("toc"@, "ncx"@),
    ]);
    emit_leaf(&mut out, Event::start_element("itemref").attr("idref", "title"));
    emit_all(&mut out, spine_ref_list(book));
    let ghost before = event_views(out@);
    emit(&mut out, Event::end_element());
    emit(&mut out, Event::end_element());
    assert(event_views(out@) =~= before + seq![end_element(), end_element()]);
    Ok(out)
}


/// A `meta` element of a chapter document.
pub open spec fn chapter_meta(name: Seq<char>, content: Seq<char>) -> Seq<EventView> {
    leaf(element("meta"@).attr("name"@, name).attr("content"@, content))
}

/// The opening of a chapter document: the head, which carries the generator
/// marker, the source URL and the date of the chapter, and the heading.
pub open spec fn chapter_head(chapter: ChapterView, date: Seq<char>) -> Seq<EventView> {
    seq![
        characters(DOCTYPE@),
        element("html"@).attr("xmlns"@, XHTML_NAMESPACE@).attr("xml:lang"@, "en"@),
        element("head"@),
    ] + text_element(element("title"@), chapter.title) + chapter_meta("charset"@, "UTF-8"@)
        + chapter_meta("generator"@, GENERATOR@) + chapter_meta("chapterurl"@, chapter.url)
        + chapter_meta("published"@, date) + leaf(
        element("link"@).attr("href"@, "../styles/stylesheet.css"@).attr(
            "rel"@,
            "stylesheet"@,
        ).attr("type"@, "text/css"@),
    ) + seq![end_element(), element("body"@)] + text_element(
        element("h1"@).attr("class"@, "chapter-title"@),
        chapter.title,
    )
}

/// A fragment as it stands in a chapter document: sanitized, its images
/// pointing into the archive.
pub open spec fn embedded(fragment: Seq<char>) -> Seq<char> {
    localized(sanitized(fragment))
}

/// The `div` of class `class` that holds `fragment`, or nothing where there
/// is no fragment.
pub open spec fn section(class: Seq<char>, fragment: Option<Seq<char>>) -> Seq<EventView> {
    match fragment {
        Some(text) => text_element(element("div"@).attr("class"@, class), embedded(text)),
        None => Seq::empty(),
    }
}

/// The events of a chapter document: the head, the heading, and the opening
/// note, the content and the closing note, each where the chapter has it.
pub open spec fn chapter_document(chapter: ChapterView, date: Seq<char>) -> Seq<EventView> {
    chapter_head(chapter, date) + section("authors-note-start"@, chapter.authors_note_start)
        + section("chapter-content"@, chapter.content) + section(
        "authors-note-end"@,
        chapter.authors_note_end,
    ) + seq![end_element(), end_element()]
}

fn emit_chapter_meta(out: &mut Vec<Event>, name: &str, content: &str)
    ensures
        event_views(final(out)@) == event_views(old(out)@) + chapter_meta(name@, content@),
{
    emit_leaf(out, Event::start_element("meta").attr("name", name).attr("content", content));
}

fn chapter_head_events(chapter: &Chapter, date: &str) -> (r: Vec<Event>)
    ensures
        event_views(r@) == chapter_head(chapter@, date@),
{
    let mut out = no_events();
    emit(&mut out, Event::characters(DOCTYPE));
    emit(
        &mut out,
        Event::start_element("html").attr("xmlns", XHTML_NAMESPACE).attr("xml:lang", "en"),
    );
    emit(&mut out, Event::start_element("head"));
    assert(event_views(out@) =~= seq![
        characters(DOCTYPE@),
        element("html"@).attr("xmlns"@, XHTML_NAMESPACE@).attr("xml:lang"@, "en"@),
        element("head"@),
    ]);
    emit_text_element(&mut out, Event::start_element("title"), chapter.title.as_str());
    emit_chapter_meta(&mut out, "charset", "UTF-8");
    emit_chapter_meta(&mut out, "generator", GENERATOR);
    emit_chapter_meta(&mut out, "chapterurl", chapter.url.as_str());
    emit_chapter_meta(&mut out, "published", date);
    emit_leaf(
        &mut out,
        Event::start_element("link").attr("href", "../styles/stylesheet.css").attr(
            "rel",
            "stylesheet",
        ).attr("type", "text/css"),
    );
    let ghost before = event_views(out@);
    emit(&mut out, Event::end_element());
    emit(&mut out, Event::start_element("body"));
    assert(event_views(out@) =~= before + seq![end_element(), element("body"@)]);
    emit_text_element(
        &mut out,
        Event::start_element("h1").attr("class", "chapter-title"),
        chapter.title.as_str(),
    );
    out
}

fn section_events(class: &str, fragment: &Option<String>) -> (r: Vec<Event>)
    ensures
        event_views(r@) == section(class@, opt_view(*fragment)),
{
    let mut out = no_events();
    match fragment {
        Some(text) => {
            let cleaned = replace_url_with_path(clean_html(text.as_str()));
            emit_text_element(
                &mut out,
                Event::start_element("div").attr("class", class),
                cleaned.as_str(),
            );
            assert(event_views(out@) =~= section(class@, opt_view(*fragment)));
        },
        None => {},
    }
    out
}

/// The events of the document of one chapter. Fails where the date of the
/// chapter cannot be written as text.
pub fn chapter_html(chapter: &Chapter) -> (r: Result<Vec<Event>, Failure>)
    ensures
        match r {
            Ok(events) => chapter@.date_published.rfc3339() matches Some(date) && event_views(
                events@,
            ) == chapter_document(chapter@, date),
            Err(e) => chapter@.date_published.rfc3339() is None && e is Format,
        },
{
    let date = match chapter.date_published.to_rfc3339() {
        Some(date) => date,
        None => {
            return Err(
                Failure::Format { reason: "the date of a chapter cannot be written".to_owned() },
            );
        },
    };
    let mut out = chapter_head_events(chapter, date.as_str());
    emit_all(&mut out, section_events("authors-note-start", &chapter.authors_note_start));
    emit_all(&mut out, section_events("chapter-content", &chapter.content));
    emit_all(&mut out, section_events("authors-note-end", &chapter.authors_note_end));
    let ghost before = event_views(out@);
    emit(&mut out, Event::end_element());
    emit(&mut out, Event::end_element());
    assert(event_views(out@) =~= before + seq![end_element(), end_element()]);
    Ok(out)
}

/// The style sheet that every document of the archive links to.
pub const STYLESHEET: &'static str =
    "body {\n  font-family: serif;\n  line-height: 1.5;\n  margin: 1em;\n}\n\nh1.title,\nh2.author {\n  text-align: center;\n}\n\nh1.chapter-title {\n  margin-bottom: 1.5em;\n}\n\nimg {\n  max-width: 100%;\n  height: auto;\n}\n\nimg.cover {\n  display: block;\n  margin: 0 auto;\n}\n\n.authors-note-start,\n.authors-note-end {\n  border: 1px solid #999;\n  border-radius: 0.3em;\n  margin: 1.5em 0;\n  padding: 0.5em 1em;\n}\n\ntable {\n  border-collapse: collapse;\n  margin: 1em auto;\n}\n\ntd,\nth {\n  border: 1px solid #999;\n  padding: 0.3em 0.6em;\n}\n";

/// The bytes of `OEBPS/styles/stylesheet.css`.
pub fn stylesheet() -> (r: Vec<u8>)
    ensures
        r@ == STYLESHEET.spec_bytes(),
{
    STYLESHEET.as_bytes_vec()
}


} // verus!
