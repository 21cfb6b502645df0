//! The archive as a whole: which images go into it under which names, and
//! the entries it is made of, in order.

use crate::book::{chapter_views, Book, BookView, Chapter, ChapterView};
use crate::epub::{
    chapter_document, chapter_html, concat3, container_document, container_xml, content_opf,
    nav_document, ncx_document, opf_document, stylesheet, title_document, title_html, toc_nav,
    toc_ncx, STYLESHEET,
};
use crate::failure::Failure;
use crate::images::{extract_file_name, extract_urls_from_html, file_name_of, sources_in};
use crate::markup::{event_views, rendered_xml, write_elements, Event, EventView, INDENT};
use crate::text::{
    chars_of, concat_indexed, decimal, decimal_text, ends_with, lemma_decimal_injective,
    lemma_decimal_len, lemma_texts_push, same_text, text_of, texts,
};
use crate::updater::is_listed;
use vstd::prelude::*;
use vstd::std_specs::iter::IteratorSpec;
use vstd::string::{StrSliceExecFns, StringExecFns, StringSliceAdditionalSpecFns};

verus! {

/// The end of the URL that the foreign generator writes for an image it could not load.
pub const FAILED_TO_LOAD: &'static str = "failedtoload";

/// The content of the `mimetype` entry.
pub const MIMETYPE: &'static str = "application/epub+zip";

/// The image sources of one chapter: those of the content, then those of the
/// opening note, then those of the closing note.
pub open spec fn chapter_sources(chapter: ChapterView) -> Seq<Seq<char>> {
    sources_in(chapter.content) + sources_in(chapter.authors_note_start) + sources_in(
        chapter.authors_note_end,
    )
}

/// Every image source of a book, the cover first, in the order of their occurrence.
pub open spec fn all_sources(book: BookView) -> Seq<Seq<char>> {
    seq![book.cover_url] + concat_indexed(
        book.chapters.len(),
        |i: int| chapter_sources(book.chapters[i]),
    )
}

/// The sources to download: each once, at the place where it occurs first,
/// without those that end in the marker of a failed load.
pub open spec fn wanted(sources: Seq<Seq<char>>) -> Seq<Seq<char>>
    decreases sources.len(),
{
    if sources.len() == 0 {
        sources
    } else {
        let head = wanted(sources.drop_last());
        let url = sources.last();
        if FAILED_TO_LOAD@.is_suffix_of(url) || head.contains(url) {
            head
        } else {
            head.push(url)
        }
    }
}

/// The image URLs of a book, each once, in first-seen order.
pub open spec fn image_urls(book: BookView) -> Seq<Seq<char>> {
    wanted(all_sources(book))
}

/// Appends to `urls` the sources of `more` that are wanted and not yet listed.
fn collect(urls: &mut Vec<String>, more: Vec<String>, Ghost(seen): Ghost<Seq<Seq<char>>>)
    requires
        texts(old(urls)@) == wanted(seen),
    ensures
        texts(final(urls)@) == wanted(seen + texts(more@)),
{
    let marker = chars_of(FAILED_TO_LOAD);
    let mut i: usize = 0;
    assert(seen + texts(more@).take(0) =~= seen);
    while i < more.len()
        invariant
            i <= more@.len(),
            marker@ == FAILED_TO_LOAD@,
            texts(urls@) == wanted(seen + texts(more@).take(i as int)),
        decreases more@.len() - i,
    {
        proof {
            let before = seen + texts(more@).take(i as int);
            let after = seen + texts(more@).take(i + 1);
            assert(after.drop_last() =~= before);
            assert(after.last() == more@[i as int]@);
        }
        let url = &more[i];
        let chars = chars_of(url.as_str());
        if !ends_with(chars.as_slice(), marker.as_slice()) && !is_listed(urls, url.as_str()) {
            let ghost listed = urls@;
            let copy = url.clone();
            urls.push(copy);
            proof {
                lemma_texts_push(listed, copy);
            }
        }
        i = i + 1;
    }
    assert(texts(more@).take(more@.len() as int) == texts(more@));
}

/// The image URLs of a book: the cover and every image of every chapter,
/// each once, in the order in which they are first seen.
pub fn collect_image_urls(book: &Book) -> (r: Vec<String>)
    ensures
        texts(r@) == image_urls(book@),
{
    let mut urls: Vec<String> = Vec::new();
    assert(texts(urls@) =~= wanted(Seq::empty()));
    let mut cover: Vec<String> = Vec::new();
    cover.push(book.cover_url.clone());
    assert(texts(cover@) =~= seq![book@.cover_url]);
    collect(&mut urls, cover, Ghost(Seq::empty()));
    assert(Seq::<Seq<char>>::empty() + seq![book@.cover_url] =~= seq![book@.cover_url]);
    let ghost chapters = book@.chapters;
    let ghost block = |i: int| chapter_sources(chapters[i]);
    let mut i: usize = 0;
    assert(seq![book@.cover_url] + concat_indexed(0, block) =~= seq![book@.cover_url]);
    while i < book.chapters.len()
        invariant
            i <= book.chapters@.len(),
            chapters == chapter_views(book.chapters@),
            chapters == book@.chapters,
            block == (|i: int| chapter_sources(chapters[i])),
            texts(urls@) == wanted(seq![book@.cover_url] + concat_indexed(i as nat, block)),
        decreases book.chapters@.len() - i,
    {
        let chapter = &book.chapters[i];
        assert(chapters[i as int] == chapter@);
        let ghost seen = seq![book@.cover_url] + concat_indexed(i as nat, block);
        let content = extract_urls_from_html(&chapter.content);
        let start = extract_urls_from_html(&chapter.authors_note_start);
        let end = extract_urls_from_html(&chapter.authors_note_end);
        let ghost a = texts(content@);
        let ghost b = texts(start@);
        let ghost c = texts(end@);
        collect(&mut urls, content, Ghost(seen));
        collect(&mut urls, start, Ghost(seen + a));
        collect(&mut urls, end, Ghost(seen + a + b));
        proof {
            assert(block(i as int) == a + b + c);
            assert(seen + a + b + c =~= seq![book@.cover_url] + (concat_indexed(i as nat, block)
                + block(i as int)));
        }
        i = i + 1;
    }
    urls
}

/// An image to download: where it comes from and the name under which it
/// goes into the archive.
#[derive(Debug)]
pub struct ImageFile {
    pub url: String,
    pub filename: String,
}

/// The mathematical value of an [`ImageFile`].
pub struct ImageFileView {
    pub url: Seq<char>,
    pub filename: Seq<char>,
}

impl View for ImageFile {
    type V = ImageFileView;

    open spec fn view(&self) -> ImageFileView {
        ImageFileView { url: self.url@, filename: self.filename@ }
    }
}

/// The values of a list of image files.
pub open spec fn image_file_views(files: Seq<ImageFile>) -> Seq<ImageFileView> {
    files.map_values(|f: ImageFile| f@)
}

/// Some file of `files` goes under the name `name`.
pub open spec fn name_taken(files: Seq<ImageFileView>, name: Seq<char>) -> bool {
    exists|i: int| 0 <= i < files.len() && (#[trigger] files[i]).filename == name
}

/// The name with the integer `number` before it, as collisions are told apart.
pub open spec fn numbered(number: nat, name: Seq<char>) -> Seq<char> {
    decimal(number) + "_"@ + name
}

/// The first number under which `name` is free among `files`, looked for
/// from `from` upward in at most `tries` tries and below the largest number
/// of 64 bits.
pub open spec fn free_number(files: Seq<ImageFileView>, name: Seq<char>, from: nat, tries: nat) -> Option<
    nat,
>
    decreases tries,
{
    if tries == 0 || from >= u64::MAX {
        None
    } else if !name_taken(files, numbered(from, name)) {
        Some(from)
    } else {
        free_number(files, name, from + 1, (tries - 1) as nat)
    }
}

/// The names under which the images at `urls` go into the archive, and the
/// integer from which the next collision is numbered. A URL gets the file
/// name it ends in. Where an earlier image has taken that name, it gets the
/// name with an integer before it: the next one, counted from zero, under
/// which the name is free. A URL that ends in no file name is left out, and
/// so is one for which no free name is found.
pub open spec fn assigned(urls: Seq<Seq<char>>) -> (Seq<ImageFileView>, nat)
    decreases urls.len(),
{
    if urls.len() == 0 {
        (Seq::empty(), 0)
    } else {
        let (files, next) = assigned(urls.drop_last());
        let url = urls.last();
        match file_name_of(url) {
            None => (files, next),
            Some(name) => if !name_taken(files, name) {
                (files.push(ImageFileView { url, filename: name }), next)
            } else {
                match free_number(files, name, next, files.len() + 1) {
                    Some(number) => (
                        files.push(ImageFileView { url, filename: numbered(number, name) }),
                        number + 1,
                    ),
                    None => (files, next),
                }
            },
        }
    }
}

/// No two files go under the same name.
pub open spec fn distinct_names(files: Seq<ImageFileView>) -> bool {
    forall|i: int, j: int|
        0 <= i < j < files.len() ==> (#[trigger] files[i]).filename != (#[trigger] files[j]).filename
}

/// A number that is found free is free, and not below where the search began.
pub proof fn lemma_free_number_is_free(
    files: Seq<ImageFileView>,
    name: Seq<char>,
    from: nat,
    tries: nat,
)
    ensures
        free_number(files, name, from, tries) matches Some(number) ==> from <= number < u64::MAX
            && !name_taken(files, numbered(number, name)),
    decreases tries,
{
    if tries > 0 && from < u64::MAX && name_taken(files, numbered(from, name)) {
        lemma_free_number_is_free(files, name, from + 1, (tries - 1) as nat);
    }
}

/// A name that no file has taken can join the files without a collision.
pub proof fn lemma_free_name_keeps_distinct(files: Seq<ImageFileView>, file: ImageFileView)
    requires
        distinct_names(files),
        !name_taken(files, file.filename),
    ensures
        distinct_names(files.push(file)),
{
    let all = files.push(file);
    assert forall|i: int, j: int| 0 <= i < j < all.len() implies (#[trigger] all[i]).filename != (
    #[trigger] all[j]).filename by {
        if j < files.len() {
            assert(all[i] == files[i] && all[j] == files[j]);
        } else {
            assert(all[i] == files[i]);
        }
    }
}

/// Whatever the URLs are, no two images go into the archive under the same name.
pub proof fn lemma_assigned_names_are_distinct(urls: Seq<Seq<char>>)
    ensures
        distinct_names(assigned(urls).0),
        assigned(urls).0.len() <= urls.len(),
    decreases urls.len(),
{
    if urls.len() > 0 {
        lemma_assigned_names_are_distinct(urls.drop_last());
        let (files, next) = assigned(urls.drop_last());
        let url = urls.last();
        match file_name_of(url) {
            None => {},
            Some(name) => {
                if !name_taken(files, name) {
                    lemma_free_name_keeps_distinct(files, ImageFileView { url, filename: name });
                } else {
                    lemma_free_number_is_free(files, name, next, files.len() + 1);
                    match free_number(files, name, next, files.len() + 1) {
                        Some(number) => {
                            lemma_free_name_keeps_distinct(
                                files,
                                ImageFileView { url, filename: numbered(number, name) },
                            );
                        },
                        None => {},
                    }
                }
            },
        }
    }
}

/// A numbered name is longer than the name, and two numbers give two names.
pub proof fn lemma_numbered_names_differ(name: Seq<char>, a: nat, b: nat)
    ensures
        numbered(a, name) != name,
        numbered(a, name) == numbered(b, name) ==> a == b,
{
    reveal_strlit("_");
    lemma_decimal_len(a);
    lemma_decimal_len(b);
    let x = numbered(a, name);
    let y = numbered(b, name);
    assert(x.len() == decimal(a).len() + 1 + name.len());
    assert(y.len() == decimal(b).len() + 1 + name.len());
    if x == y {
        assert(decimal(a) =~= x.subrange(0, decimal(a).len() as int));
        assert(decimal(b) =~= y.subrange(0, decimal(b).len() as int));
        lemma_decimal_injective(a, b);
    }
}

/// Where every URL ends in the same file name, the first image keeps that
/// name and the images behind it are numbered upward from zero in the order
/// of the URLs: the image at place `i` goes under the name with `i - 1`
/// before it.
pub proof fn lemma_colliding_names_are_numbered_in_order(urls: Seq<Seq<char>>, name: Seq<char>)
    requires
        forall|i: int| 0 <= i < urls.len() ==> file_name_of(#[trigger] urls[i]) == Some(name),
        urls.len() < u64::MAX,
    ensures
        assigned(urls).0.len() == urls.len(),
        urls.len() > 0 ==> assigned(urls).0[0].filename == name,
        urls.len() > 0 ==> assigned(urls).1 == urls.len() - 1,
        forall|i: int|
            1 <= i < urls.len() ==> (#[trigger] assigned(urls).0[i]).filename == numbered(
                (i - 1) as nat,
                name,
            ),
        forall|i: int| 0 <= i < urls.len() ==> (#[trigger] assigned(urls).0[i]).url == urls[i],
    decreases urls.len(),
{
    if urls.len() > 0 {
        let rest = urls.drop_last();
        assert forall|i: int| 0 <= i < rest.len() implies file_name_of(#[trigger] rest[i]) == Some(
            name,
        ) by {
            assert(rest[i] == urls[i]);
        }
        lemma_colliding_names_are_numbered_in_order(rest, name);
        let (files, next) = assigned(rest);
        let url = urls.last();
        if rest.len() == 0 {
            assert(files.len() == 0);
            assert(!name_taken(files, name));
        } else {
            assert(files[0].filename == name);
            assert(name_taken(files, name));
            let number = (rest.len() - 1) as nat;
            assert(next == number);
            assert(!name_taken(files, numbered(number, name))) by {
                if name_taken(files, numbered(number, name)) {
                    let k = choose|k: int|
                        0 <= k < files.len() && (#[trigger] files[k]).filename == numbered(
                            number,
                            name,
                        );
                    if k == 0 {
                        lemma_numbered_names_differ(name, number, 0);
                    } else {
                        lemma_numbered_names_differ(name, number, (k - 1) as nat);
                    }
                }
            }
            assert(free_number(files, name, next, files.len() + 1) == Some(number));
        }
        assert forall|i: int| 0 <= i < rest.len() implies (#[trigger] assigned(urls).0[i])
            == assigned(rest).0[i] by {}
    }
}

/// Whether some file of `files` goes under the name `name`.
pub fn is_taken(files: &Vec<ImageFile>, name: &str) -> (r: bool)
    ensures
        r == name_taken(image_file_views(files@), name@),
{
    let mut i: usize = 0;
    while i < files.len()
        invariant
            i <= files@.len(),
            forall|k: int| 0 <= k < i ==> (#[trigger] image_file_views(files@)[k]).filename != name@,
        decreases files@.len() - i,
    {
        if same_text(files[i].filename.as_str(), name) {
            assert(image_file_views(files@)[i as int].filename == name@);
            return true;
        }
        i = i + 1;
    }
    false
}

/// The first number from `from` upward under which `name` is free among
/// `files`, with the name that it gives; `None` where none is found in one
/// try more than there are files.
pub fn find_free_number(files: &Vec<ImageFile>, name: &str, from: u64) -> (r: Option<(u64, String)>)
    ensures
        match r {
            Some((number, filename)) => free_number(
                image_file_views(files@),
                name@,
                from as nat,
                files@.len() + 1,
            ) == Some(number as nat) && filename@ == numbered(number as nat, name@) && number
                < u64::MAX,
            None => free_number(image_file_views(files@), name@, from as nat, files@.len() + 1)
                is None,
        },
{
    let mut number: u64 = from;
    let mut left: u128 = files.len() as u128 + 1;
    while left > 0
        invariant
            left <= files@.len() + 1,
            free_number(image_file_views(files@), name@, from as nat, files@.len() + 1)
                == free_number(image_file_views(files@), name@, number as nat, left as nat),
        decreases left,
    {
        if number == u64::MAX {
            return None;
        }
        let digits = text_of(decimal_text(number).as_slice());
        let filename = concat3(digits.as_str(), "_", name);
        if !is_taken(files, filename.as_str()) {
            return Some((number, filename));
        }
        number = number + 1;
        left = left - 1;
    }
    None
}

/// Gives every image a name in the archive. Names follow the order of
/// `urls`: the first URL that ends in a name keeps it, and each later
/// collision gets an integer before the name, counted upward from zero. No
/// two images get the same name.
pub fn assign_file_names(urls: &Vec<String>) -> (r: Vec<ImageFile>)
    ensures
        image_file_views(r@) == assigned(texts(urls@)).0,
        distinct_names(image_file_views(r@)),
{
    let mut files: Vec<ImageFile> = Vec::new();
    let mut next: u64 = 0;
    let mut i: usize = 0;
    let ghost all = texts(urls@);
    assert(all.take(0) =~= Seq::empty());
    assert(image_file_views(files@) =~= Seq::empty());
    while i < urls.len()
        invariant
            i <= urls@.len(),
            all == texts(urls@),
            image_file_views(files@) == assigned(all.take(i as int)).0,
            next == assigned(all.take(i as int)).1,
        decreases urls@.len() - i,
    {
        proof {
            assert(all.take(i + 1).drop_last() == all.take(i as int));
            assert(all.take(i + 1).last() == urls@[i as int]@);
        }
        let url = &urls[i];
        match extract_file_name(url.as_str()) {
            Ok(name) => {
                let ghost before = files@;
                if !is_taken(&files, name.as_str()) {
                    let file = ImageFile { url: url.clone(), filename: name };
                    files.push(file);
                    assert(image_file_views(before.push(file)) =~= image_file_views(before).push(
                        file@,
                    ));
                } else {
                    match find_free_number(&files, name.as_str(), next) {
                        Some((number, filename)) => {
                            let file = ImageFile { url: url.clone(), filename };
                            files.push(file);
                            next = number + 1;
                            assert(image_file_views(before.push(file)) =~= image_file_views(
                                before,
                            ).push(file@));
                        },
                        None => {},
                    }
                }
            },
            Err(_) => {},
        }
        i = i + 1;
    }
    assert(all.take(urls@.len() as int) == all);
    proof {
        lemma_assigned_names_are_distinct(all);
    }
    files
}

/// The images of a book with the names under which they go into its
/// archive, no two of them under the same name.
pub fn plan_images(book: &Book) -> (r: Vec<ImageFile>)
    ensures
        image_file_views(r@) == assigned(image_urls(book@)).0,
        distinct_names(image_file_views(r@)),
{
    let urls = collect_image_urls(book);
    assign_file_names(&urls)
}


/// A downloaded image, ready for the archive.
#[derive(Debug)]
pub struct Image {
    pub filename: String,
    pub data: Vec<u8>,
}

/// What a list of images holds: the name and the bytes of each.
pub open spec fn image_views(images: Seq<Image>) -> Seq<(Seq<char>, Seq<u8>)> {
    images.map_values(|i: Image| (i.filename@, i.data@))
}

/// How the download of an image ended, seen from the archive: the bytes of
/// the image, or nothing.
pub open spec fn downloaded(outcome: Result<Vec<u8>, Failure>) -> Option<Seq<u8>> {
    match outcome {
        Ok(data) => Some(data@),
        Err(_) => None,
    }
}

/// The images that go into the archive after the first `n` downloads: each
/// planned image whose download succeeded, under its planned name, in the
/// order of the plan. An image whose download failed is left out.
pub open spec fn gathered(
    plan: Seq<ImageFileView>,
    outcomes: Seq<Result<Vec<u8>, Failure>>,
    n: nat,
) -> Seq<(Seq<char>, Seq<u8>)>
    decreases n,
{
    if n == 0 {
        Seq::empty()
    } else {
        let before = gathered(plan, outcomes, (n - 1) as nat);
        if n - 1 < plan.len() && n - 1 < outcomes.len() {
            match downloaded(outcomes[n - 1]) {
                Some(data) => before.push((plan[n - 1].filename, data)),
                None => before,
            }
        } else {
            before
        }
    }
}

/// The failure is worth a report. That an image has no URL to fetch it from
/// is none: such an image lies beside the book and is left out in silence.
pub open spec fn is_reported(failure: Failure) -> bool {
    !(failure is InvalidUrl)
}

/// The failures to report after the first `n` downloads, in the order of
/// the plan.
pub open spec fn reported(outcomes: Seq<Result<Vec<u8>, Failure>>, n: nat) -> Seq<Failure>
    decreases n,
{
    if n == 0 {
        Seq::empty()
    } else {
        let before = reported(outcomes, (n - 1) as nat);
        if n - 1 < outcomes.len() {
            match outcomes[n - 1] {
                Err(failure) => if is_reported(failure) {
                    before.push(failure)
                } else {
                    before
                },
                Ok(_) => before,
            }
        } else {
            before
        }
    }
}

/// Puts the planned images and the ends of their downloads together. An
/// image whose download succeeded goes into the archive under its planned
/// name; one whose download failed is left out, and the archive is written
/// without it. The failures are handed back for reporting, but for those of
/// images that have no URL to fetch them from.
pub fn gather_images(plan: Vec<ImageFile>, outcomes: Vec<Result<Vec<u8>, Failure>>) -> (r: (
    Vec<Image>,
    Vec<Failure>,
))
    ensures
        image_views(r.0@) == gathered(image_file_views(plan@), outcomes@, outcomes@.len()),
        r.1@ == reported(outcomes@, outcomes@.len()),
        r.0@.len() <= plan@.len(),
{
    let ghost all = outcomes@;
    let ghost files = image_file_views(plan@);
    let mut images: Vec<Image> = Vec::new();
    let mut failures: Vec<Failure> = Vec::new();
    let mut i: usize = 0;
    let total = outcomes.len();
    assert(image_views(images@) =~= gathered(files, all, 0));
    for outcome in it: outcomes
        invariant
            it.seq() == all,
            all.len() == total,
            files == image_file_views(plan@),
            i == it.index(),
            images@.len() <= i,
            images@.len() <= plan@.len(),
            image_views(images@) == gathered(files, all, i as nat),
            failures@ == reported(all, i as nat),
    {
        assert(all[i as int] == outcome);
        match outcome {
            Ok(data) => {
                if i < plan.len() {
                    assert(files[i as int] == plan@[i as int]@);
                    let ghost before = images@;
                    let image = Image { filename: plan[i].filename.clone(), data };
                    images.push(image);
                    assert(image_views(before.push(image)) =~= image_views(before).push(
                        (image.filename@, image.data@),
                    ));
                }
            },
            Err(failure) => {
                match failure {
                    Failure::InvalidUrl { url } => {},
                    other => {
                        failures.push(other);
                    },
                }
            },
        }
        i = i + 1;
    }
    (images, failures)
}

/// One entry of the archive.
#[derive(Debug)]
pub struct Entry {
    /// The path of the entry inside the archive.
    pub name: String,
    /// What the entry holds.
    pub data: Vec<u8>,
    /// Whether the entry is deflated; it is stored as it is otherwise.
    pub compressed: bool,
}

/// The mathematical value of an [`Entry`].
pub struct EntryView {
    pub name: Seq<char>,
    pub data: Seq<u8>,
    pub compressed: bool,
}

impl View for Entry {
    type V = EntryView;

    open spec fn view(&self) -> EntryView {
        EntryView { name: self.name@, data: self.data@, compressed: self.compressed }
    }
}

/// The values of a list of entries.
pub open spec fn entry_views(entries: Seq<Entry>) -> Seq<EntryView> {
    entries.map_values(|e: Entry| e@)
}

/// The file names of a list of images.
pub open spec fn image_names(images: Seq<Image>) -> Seq<Seq<char>> {
    images.map_values(|i: Image| i.filename@)
}

/// The `mimetype` entry: stored, not deflated, and holding the media type alone.
pub open spec fn mimetype_entry() -> EntryView {
    EntryView { name: "mimetype"@, data: MIMETYPE.spec_bytes(), compressed: false }
}

/// The entry `name` for the document `events`, where the document can be rendered.
pub open spec fn document_entry(name: Seq<char>, events: Seq<EventView>, escape: bool) -> Option<
    EntryView,
> {
    match rendered_xml(events, INDENT, escape) {
        Some(data) => Some(EntryView { name, data, compressed: true }),
        None => None,
    }
}

/// The entry of the package document.
pub open spec fn opf_entry(book: BookView, images: Seq<Seq<char>>) -> Option<EntryView> {
    match book.date_published.rfc3339() {
        Some(date) => document_entry("OEBPS/content.opf"@, opf_document(book, date, images), true),
        None => None,
    }
}

/// The entry of one chapter.
pub open spec fn chapter_entry(chapter: ChapterView) -> Option<EntryView> {
    match chapter.date_published.rfc3339() {
        Some(date) => document_entry(
            "OEBPS/text/"@ + chapter.identifier + ".xhtml"@,
            chapter_document(chapter, date),
            false,
        ),
        None => None,
    }
}

/// The entries of the first `n` chapters, in order, where each can be written.
pub open spec fn chapter_entries(chapters: Seq<ChapterView>, n: nat) -> Option<Seq<EntryView>>
    decreases n,
{
    if n == 0 {
        Some(Seq::empty())
    } else {
        match (chapter_entries(chapters, (n - 1) as nat), chapter_entry(chapters[n - 1])) {
            (Some(before), Some(entry)) => Some(before.push(entry)),
            _ => None,
        }
    }
}

/// The entry of one image.
pub open spec fn image_entry(image: Image) -> EntryView {
    EntryView { name: "OEBPS/images/"@ + image.filename@, data: image.data@, compressed: true }
}

/// The entries that stand before the chapters: the media type, the
/// container, the package document and the two tables of contents.
pub open spec fn leading_entries(book: BookView, images: Seq<Seq<char>>) -> Option<Seq<EntryView>> {
    match (
        document_entry("META-INF/container.xml"@, container_document(), true),
        opf_entry(book, images),
        document_entry("OEBPS/toc.ncx"@, ncx_document(book), true),
        document_entry("OEBPS/nav.xhtml"@, nav_document(book), false),
    ) {
        (Some(container), Some(opf), Some(ncx), Some(nav)) => Some(
            seq![mimetype_entry(), container, opf, ncx, nav],
        ),
        _ => None,
    }
}

/// The entry of the style sheet.
pub open spec fn stylesheet_entry() -> EntryView {
    EntryView {
        name: "OEBPS/styles/stylesheet.css"@,
        data: STYLESHEET.spec_bytes(),
        compressed: true,
    }
}

/// The entries of the archive of a book, in order: media type, container,
/// package document, legacy table of contents, navigation document, one
/// document for every chapter, the title page, the images and the style
/// sheet. `None` where a document cannot be rendered or a date cannot be
/// written.
pub open spec fn archive(book: BookView, images: Seq<Image>) -> Option<Seq<EntryView>> {
    match (
        leading_entries(book, image_names(images)),
        chapter_entries(book.chapters, book.chapters.len()),
        document_entry("OEBPS/text/title.xhtml"@, title_document(book), false),
    ) {
        (Some(leading), Some(chapters), Some(title)) => Some(
            leading + chapters + seq![title] + images.map_values(|i: Image| image_entry(i)) + seq![
                stylesheet_entry(),
            ],
        ),
        _ => None,
    }
}

fn document(name: String, events: Vec<Event>, escape: bool) -> (r: Result<Entry, Failure>)
    ensures
        match r {
            Ok(entry) => document_entry(name@, event_views(events@), escape) == Some(entry@),
            Err(e) => document_entry(name@, event_views(events@), escape) is None && e is Format,
        },
{
    match write_elements(&events, escape) {
        Ok(data) => Ok(Entry { name, data, compressed: true }),
        Err(e) => Err(e),
    }
}

fn leading(book: &Book, names: &Vec<String>) -> (r: Result<Vec<Entry>, Failure>)
    ensures
        match r {
            Ok(entries) => leading_entries(book@, texts(names@)) == Some(entry_views(entries@)),
            Err(e) => leading_entries(book@, texts(names@)) is None && e is Format,
        },
{
    let mimetype = Entry {
        name: "mimetype".to_owned(),
        data: MIMETYPE.as_bytes_vec(),
        compressed: false,
    };
    let container = match document("META-INF/container.xml".to_owned(), container_xml(), true) {
        Ok(entry) => entry,
        Err(e) => {
            return Err(e);
        },
    };
    let package = match content_opf(book, names) {
        Ok(events) => events,
        Err(e) => {
            return Err(e);
        },
    };
    let opf = match document("OEBPS/content.opf".to_owned(), package, true) {
        Ok(entry) => entry,
        Err(e) => {
            return Err(e);
        },
    };
    let ncx = match document("OEBPS/toc.ncx".to_owned(), toc_ncx(book), true) {
        Ok(entry) => entry,
        Err(e) => {
            return Err(e);
        },
    };
    let nav = match document("OEBPS/nav.xhtml".to_owned(), toc_nav(book), false) {
        Ok(entry) => entry,
        Err(e) => {
            return Err(e);
        },
    };
    let mut out: Vec<Entry> = Vec::new();
    out.push(mimetype);
    out.push(container);
    out.push(opf);
    out.push(ncx);
    out.push(nav);
    assert(entry_views(out@) =~= seq![mimetype@, container@, opf@, ncx@, nav@]);
    Ok(out)
}

fn chapter_entry_of(chapter: &Chapter) -> (r: Result<Entry, Failure>)
    ensures
        match r {
            Ok(entry) => chapter_entry(chapter@) == Some(entry@),
            Err(e) => chapter_entry(chapter@) is None && e is Format,
        },
{
    let events = match chapter_html(chapter) {
        Ok(events) => events,
        Err(e) => {
            return Err(e);
        },
    };
    document(concat3("OEBPS/text/", chapter.identifier.as_str(), ".xhtml"), events, false)
}

/// Appending an entry appends its value.
pub proof fn lemma_entry_views_push(entries: Seq<Entry>, e: Entry)
    ensures
        entry_views(entries.push(e)) == entry_views(entries).push(e@),
{
    assert(entry_views(entries.push(e)) =~= entry_views(entries).push(e@));
}

/// The entries of an archive for `book` and its downloaded `images`, in
/// order. Fails exactly where a document cannot be rendered or a date cannot
/// be written as text.
pub fn assemble(book: &Book, images: Vec<Image>) -> (r: Result<Vec<Entry>, Failure>)
    ensures
        match r {
            Ok(entries) => archive(book@, images@) == Some(entry_views(entries@)),
            Err(e) => archive(book@, images@) is None && e is Format,
        },
{
    let mut names: Vec<String> = Vec::new();
    let mut k: usize = 0;
    assert(texts(names@) =~= image_names(images@.take(0)));
    while k < images.len()
        invariant
            k <= images@.len(),
            texts(names@) == image_names(images@.take(k as int)),
        decreases images@.len() - k,
    {
        let ghost before = names@;
        let name = images[k].filename.clone();
        names.push(name);
        proof {
            lemma_texts_push(before, name);
            assert(images@.take(k + 1) == images@.take(k as int).push(images@[k as int]));
            assert(image_names(images@.take(k + 1)) =~= image_names(images@.take(k as int)).push(
                images@[k as int].filename@,
            ));
        }
        k = k + 1;
    }
    assert(images@.take(images@.len() as int) == images@);
    let mut out = match leading(book, &names) {
        Ok(entries) => entries,
        Err(e) => {
            return Err(e);
        },
    };
    let ghost head = entry_views(out@);
    let ghost chapters = book@.chapters;
    let mut i: usize = 0;
    assert(entry_views(out@) =~= head + Seq::<EntryView>::empty());
    while i < book.chapters.len()
        invariant
            i <= book.chapters@.len(),
            chapters == chapter_views(book.chapters@),
            chapter_entries(chapters, i as nat) matches Some(done) && entry_views(out@) == head
                + done,
        decreases book.chapters@.len() - i,
    {
        let chapter = &book.chapters[i];
        assert(chapters[i as int] == chapter@);
        let ghost done = chapter_entries(chapters, i as nat)->0;
        match chapter_entry_of(chapter) {
            Ok(entry) => {
                proof {
                    lemma_entry_views_push(out@, entry);
                    assert((head + done).push(entry@) =~= head + done.push(entry@));
                }
                out.push(entry);
            },
            Err(e) => {
                proof {
                    lemma_chapter_entries_fail(chapters, (i + 1) as nat, chapters.len());
                }
                return Err(e);
            },
        }
        i = i + 1;
    }
    let ghost with_chapters = entry_views(out@);
    let title = match document("OEBPS/text/title.xhtml".to_owned(), title_html(book), false) {
        Ok(entry) => entry,
        Err(e) => {
            return Err(e);
        },
    };
    proof {
        lemma_entry_views_push(out@, title);
        assert(with_chapters.push(title@) =~= with_chapters + seq![title@]);
    }
    out.push(title);
    let ghost with_title = entry_views(out@);
    let ghost all = images@;
    assert(all.take(0).map_values(|i: Image| image_entry(i)) =~= Seq::<EntryView>::empty());
    assert(entry_views(out@) =~= with_title + Seq::<EntryView>::empty());
    for image in it: images
        invariant
            it.seq() == all,
            entry_views(out@) == with_title + all.take(it.index()).map_values(
                |i: Image| image_entry(i),
            ),
    {
        let Image { filename, data } = image;
        let mut name = String::from_str("OEBPS/images/");
        name.append(filename.as_str());
        let entry = Entry { name, data, compressed: true };
        proof {
            let n = it.index();
            lemma_entry_views_push(out@, entry);
            assert(all.take(n + 1) == all.take(n).push(image));
            assert(entry@ == image_entry(image));
            assert((with_title + all.take(n).map_values(|i: Image| image_entry(i))).push(entry@)
                =~= with_title + all.take(n + 1).map_values(|i: Image| image_entry(i)));
        }
        out.push(entry);
    }
    assert(all.take(all.len() as int) == all);
    let ghost with_images = entry_views(out@);
    let sheet = Entry {
        name: "OEBPS/styles/stylesheet.css".to_owned(),
        data: stylesheet(),
        compressed: true,
    };
    proof {
        lemma_entry_views_push(out@, sheet);
        assert(with_images.push(sheet@) =~= with_images + seq![stylesheet_entry()]);
    }
    out.push(sheet);
    Ok(out)
}

/// Where one chapter cannot be written, no longer list of chapters can.
pub proof fn lemma_chapter_entries_fail(chapters: Seq<ChapterView>, failed: nat, n: nat)
    requires
        chapter_entries(chapters, failed) is None,
        failed <= n,
    ensures
        chapter_entries(chapters, n) is None,
    decreases n,
{
    if failed < n {
        lemma_chapter_entries_fail(chapters, failed, (n - 1) as nat);
    }
}

/// `zip::result::ZipError`, the error of the packer. It is carried from the
/// packer to `pack` and never looked into.
#[verifier::external_type_specification]
#[verifier::external_body]
pub struct ExZipError(zip::result::ZipError);

/// The names of a list of entries.
pub open spec fn entry_names(entries: Seq<EntryView>) -> Seq<Seq<char>> {
    entries.map_values(|e: EntryView| e.name)
}

/// The packer takes `entries`: it packs them into an archive. Whether it
/// does depends on the entries alone: it refuses a name that an earlier
/// entry has, a name too long for the header of an entry, and an entry too
/// large for a plain archive.
pub uninterp spec fn zip_packs(entries: Seq<EntryView>) -> bool;

/// Writes `entries` in order into an archive in memory: one
/// `zip::ZipWriter::start_file` and the data for each, then
/// `zip::ZipWriter::finish`. An archive comes back exactly where the packer
/// takes the entries, and `start_file` refuses a name that the archive holds
/// already, so then no two entries share a name. The bytes of the archive
/// depend on more than the entries, so nothing is stated of them.
#[verifier::external_body]
fn zip_entries(entries: &Vec<Entry>) -> (r: Result<Vec<u8>, zip::result::ZipError>)
    ensures
        r is Ok <==> zip_packs(entry_views(entries@)),
        r is Ok ==> entry_names(entry_views(entries@)).no_duplicates(),
{
    let mut writer = zip::ZipWriter::new(std::io::Cursor::new(Vec::new()));
    for entry in entries {
        let method = match entry.compressed {
            true => zip::CompressionMethod::Deflated,
            false => zip::CompressionMethod::Stored,
        };
        let options = zip::write::SimpleFileOptions::default().compression_method(method);
        writer.start_file(entry.name.as_str(), options)?;
        std::io::Write::write_all(&mut writer, &entry.data)?;
    }
    Ok(writer.finish()?.into_inner())
}

/// Packs entries into the bytes of a zip archive, in the order given. It
/// succeeds exactly where the packer takes the entries, which it does only
/// where no two of them share a name; a failure of the packer is reported
/// as `Failure::Format`.
pub fn pack(entries: &Vec<Entry>) -> (r: Result<Vec<u8>, Failure>)
    ensures
        r is Ok <==> zip_packs(entry_views(entries@)),
        r is Ok ==> entry_names(entry_views(entries@)).no_duplicates(),
        r matches Err(e) ==> e is Format,
{
    match zip_entries(entries) {
        Ok(bytes) => Ok(bytes),
        Err(_) => Err(Failure::Format { reason: "the archive could not be packed".to_owned() }),
    }
}

/// The entries of the archive of `book` can be assembled, and the packer
/// takes them.
pub open spec fn can_be_written(book: BookView, images: Seq<Image>) -> bool {
    archive(book, images) matches Some(entries) && zip_packs(entries)
}

/// The bytes of the EPUB archive of `book` with its downloaded `images`. It
/// succeeds exactly where the entries can be assembled and the packer takes
/// them, which it does only where no two of them share a name; every
/// failure is a `Failure::Format`.
pub fn write(book: &Book, images: Vec<Image>) -> (r: Result<Vec<u8>, Failure>)
    ensures
        r is Ok <==> can_be_written(book@, images@),
        r matches Err(e) ==> e is Format,
        r is Ok ==> (archive(book@, images@) matches Some(entries) && entry_names(
            entries,
        ).no_duplicates()),
{
    let entries = match assemble(book, images) {
        Ok(entries) => entries,
        Err(e) => {
            return Err(e);
        },
    };
    pack(&entries)
}

} // verus!
