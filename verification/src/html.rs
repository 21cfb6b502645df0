//! Questions asked of HTML text with CSS selectors.

use crate::text::{lemma_texts_push, opt_texts, opt_view, texts};
use vstd::prelude::*;

verus! {

/// The inner HTML of every element of the parsed document `document` that
/// matches the CSS selector `selector`, in document order; `None` where the
/// selector is no CSS selector.
pub uninterp spec fn selected_inner_html(document: Seq<char>, selector: Seq<char>) -> Option<
    Seq<Seq<char>>,
>;

/// The inner HTML of every element that matches `selector` in the parsed
/// document `document`, once the elements at the places `removed` among
/// those that match `marks`, counted in document order, have left the
/// document; `None` where one of the two is no CSS selector.
pub uninterp spec fn selected_inner_html_without(
    document: Seq<char>,
    marks: Seq<char>,
    removed: Seq<usize>,
    selector: Seq<char>,
) -> Option<Seq<Seq<char>>>;

/// For every element of the parsed document `document` that matches
/// `selector`, in document order, the value of its attribute `attribute`, if
/// it has one; `None` where the selector is no CSS selector.
pub uninterp spec fn selected_attributes(
    document: Seq<char>,
    selector: Seq<char>,
    attribute: Seq<char>,
) -> Option<Seq<Option<Seq<char>>>>;

/// As `selected_attributes`, with `fragment` parsed as a fragment of a page
/// instead of a whole document.
pub uninterp spec fn selected_fragment_attributes(
    fragment: Seq<char>,
    selector: Seq<char>,
    attribute: Seq<char>,
) -> Option<Seq<Option<Seq<char>>>>;

/// What a list of optional strings holds.
pub open spec fn opt_views(items: Seq<Option<String>>) -> Seq<Option<Seq<char>>> {
    items.map_values(|s: Option<String>| opt_view(s))
}

/// What an optional list of optional strings holds.
pub open spec fn opt_opt_views(items: Option<Vec<Option<String>>>) -> Option<
    Seq<Option<Seq<char>>>,
> {
    match items {
        Some(v) => Some(opt_views(v@)),
        None => None,
    }
}

/// `ego_tree::NodeMut::detach` on the elements at the places `removed`
/// among those that `scraper::Html::select` finds for `marks` in the parsed
/// document, and then `scraper::Html::select` for `selector` on what is
/// left; each match is handed back as its `scraper::ElementRef::inner_html`.
#[verifier::external_body]
pub(crate) fn select_inner_html_without(
    document: &str,
    marks: &str,
    removed: &Vec<usize>,
    selector: &str,
) -> (r: Option<Vec<String>>)
    requires
        selected_inner_html(document@, marks@) matches Some(found) && forall|k: int|
            0 <= k < removed@.len() ==> (#[trigger] removed@[k]) < found.len(),
    ensures
        opt_texts(r) == selected_inner_html_without(document@, marks@, removed@, selector@),
{
    let marks = scraper::Selector::parse(marks).ok()?;
    let selector = scraper::Selector::parse(selector).ok()?;
    let mut parsed = scraper::Html::parse_document(document);
    let marked: Vec<_> = parsed.select(&marks).map(|element| element.id()).collect();
    for place in removed {
        parsed.tree.get_mut(marked[*place]).map(|mut node| node.detach());
    }
    Some(parsed.select(&selector).map(|element| element.inner_html()).collect())
}

/// `scraper::Html::select` on the document that `scraper::Html::parse_document`
/// builds from `document`, with the selector that `scraper::Selector::parse`
/// reads out of `selector`; each match is handed back as its
/// `scraper::ElementRef::inner_html`.
#[verifier::external_body]
pub(crate) fn select_inner_html(document: &str, selector: &str) -> (r: Option<Vec<String>>)
    ensures
        opt_texts(r) == selected_inner_html(document@, selector@),
{
    let selector = scraper::Selector::parse(selector).ok()?;
    let parsed = scraper::Html::parse_document(document);
    Some(parsed.select(&selector).map(|element| element.inner_html()).collect())
}

/// `scraper::Html::select` on the parsed document, as in `select_inner_html`;
/// each match is handed back as its `scraper::ElementRef::attr` for
/// `attribute`.
#[verifier::external_body]
pub(crate) fn select_attributes(document: &str, selector: &str, attribute: &str) -> (r: Option<
    Vec<Option<String>>,
>)
    ensures
        opt_opt_views(r) == selected_attributes(document@, selector@, attribute@),
{
    let selector = scraper::Selector::parse(selector).ok()?;
    let parsed = scraper::Html::parse_document(document);
    Some(parsed.select(&selector).map(|element| element.attr(attribute).map(str::to_owned)).collect())
}

/// `scraper::Html::select` on the fragment that `scraper::Html::parse_fragment`
/// builds from `fragment`; each match is handed back as its
/// `scraper::ElementRef::attr` for `attribute`.
#[verifier::external_body]
pub(crate) fn select_fragment_attributes(fragment: &str, selector: &str, attribute: &str) -> (r:
    Option<Vec<Option<String>>>)
    ensures
        opt_opt_views(r) == selected_fragment_attributes(fragment@, selector@, attribute@),
{
    let selector = scraper::Selector::parse(selector).ok()?;
    let parsed = scraper::Html::parse_fragment(fragment);
    Some(parsed.select(&selector).map(|element| element.attr(attribute).map(str::to_owned)).collect())
}

/// The first of `matches`, unless there is none or it is empty.
pub open spec fn first_non_empty(matches: Option<Seq<Seq<char>>>) -> Option<Seq<char>> {
    match matches {
        Some(found) => if found.len() > 0 && found[0].len() > 0 {
            Some(found[0])
        } else {
            None
        },
        None => None,
    }
}

/// The attribute of the first of `matches`, unless there is no match, the
/// first match lacks the attribute, or the attribute is empty.
pub open spec fn first_attribute(matches: Option<Seq<Option<Seq<char>>>>) -> Option<Seq<char>> {
    match matches {
        Some(found) => if found.len() > 0 {
            match found[0] {
                Some(value) => if value.len() > 0 {
                    Some(value)
                } else {
                    None
                },
                None => None,
            }
        } else {
            None
        },
        None => None,
    }
}

/// The attribute values that are present, in order.
pub open spec fn present(values: Seq<Option<Seq<char>>>) -> Seq<Seq<char>>
    decreases values.len(),
{
    if values.len() == 0 {
        Seq::empty()
    } else {
        match values.last() {
            Some(v) => present(values.drop_last()).push(v),
            None => present(values.drop_last()),
        }
    }
}

/// The first of `matches`, unless there is none or it is empty.
pub fn pick_first_non_empty(matches: Option<Vec<String>>) -> (r: Option<String>)
    ensures
        opt_view(r) == first_non_empty(opt_texts(matches)),
{
    match matches {
        Some(found) => {
            if found.len() > 0 && found[0].as_str().unicode_len() > 0 {
                assert(texts(found@)[0] == found@[0]@);
                Some(found[0].clone())
            } else {
                assert(found@.len() > 0 ==> texts(found@)[0] == found@[0]@);
                None
            }
        },
        None => None,
    }
}

/// The attribute of the first of `matches`, unless it is missing or empty.
pub fn pick_first_attribute(matches: Option<Vec<Option<String>>>) -> (r: Option<String>)
    ensures
        opt_view(r) == first_attribute(opt_opt_views(matches)),
{
    match matches {
        Some(found) => {
            if found.len() > 0 {
                assert(opt_views(found@)[0] == opt_view(found@[0]));
                match &found[0] {
                    Some(value) => if value.as_str().unicode_len() > 0 {
                        Some(value.clone())
                    } else {
                        None
                    },
                    None => None,
                }
            } else {
                None
            }
        },
        None => None,
    }
}

/// Short questions to a document.
pub trait QuickSelect {
    /// The inner HTML of the first element that matches `selector`.
    fn get_inner_html_of(&self, selector: &str) -> Option<String>;

    /// The `content` attribute of the first element that matches `selector`.
    fn get_meta_content_of(&self, selector: &str) -> Option<String>;
}

impl QuickSelect for str {
    /// The inner HTML of the first element of this document that matches
    /// `selector`; `None` where nothing matches or the element is empty.
    fn get_inner_html_of(&self, selector: &str) -> (r: Option<String>)
        ensures
            opt_view(r) == first_non_empty(selected_inner_html(self@, selector@)),
    {
        pick_first_non_empty(select_inner_html(self, selector))
    }

    /// The `content` attribute of the first element of this document that
    /// matches `selector`; `None` where nothing matches, or the attribute is
    /// missing or empty.
    fn get_meta_content_of(&self, selector: &str) -> (r: Option<String>)
        ensures
            opt_view(r) == first_attribute(selected_attributes(self@, selector@, "content"@)),
    {
        pick_first_attribute(select_attributes(self, selector, "content"))
    }
}

/// The attribute values that are present, in order.
pub fn keep_present(values: Vec<Option<String>>) -> (r: Vec<String>)
    ensures
        texts(r@) == present(opt_views(values@)),
{
    let mut out: Vec<String> = Vec::new();
    let mut i: usize = 0;
    assert(opt_views(values@).take(0) =~= Seq::empty());
    assert(texts(out@) =~= Seq::empty());
    while i < values.len()
        invariant
            i <= values@.len(),
            texts(out@) == present(opt_views(values@).take(i as int)),
        decreases values@.len() - i,
    {
        proof {
            let all = opt_views(values@);
            assert(all.take(i + 1).drop_last() == all.take(i as int));
            assert(all.take(i + 1).last() == opt_view(values@[i as int]));
        }
        match &values[i] {
            Some(v) => {
                let ghost before = out@;
                let copy = v.clone();
                out.push(copy);
                proof {
                    lemma_texts_push(before, copy);
                }
            },
            None => {},
        }
        i = i + 1;
    }
    assert(opt_views(values@).take(values@.len() as int) == opt_views(values@));
    out
}

/// The sources of the images in a fragment of HTML: the `src` of every `img`
/// element that has one, in document order.
pub open spec fn image_sources(fragment: Seq<char>) -> Seq<Seq<char>> {
    match selected_fragment_attributes(fragment, "img"@, "src"@) {
        Some(found) => present(found),
        None => Seq::empty(),
    }
}

/// The sources of the images in a fragment of HTML.
pub fn find_image_sources(fragment: &str) -> (r: Vec<String>)
    ensures
        texts(r@) == image_sources(fragment@),
{
    match select_fragment_attributes(fragment, "img", "src") {
        Some(found) => keep_present(found),
        None => {
            let out: Vec<String> = Vec::new();
            assert(texts(out@) =~= Seq::empty());
            out
        },
    }
}

} // verus!
