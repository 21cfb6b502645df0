//! URLs and paths: the parts of them that name books, chapters and files.

use crate::text::{chars_of, opt_texts, opt_view, text_of};
use vstd::prelude::*;

verus! {

/// The segments of the path of `url`, as the URL library splits them once it
/// has parsed the URL; `None` where it rejects the URL, or where the URL has
/// no path to split.
pub uninterp spec fn url_segments(url: Seq<char>) -> Option<Seq<Seq<char>>>;

/// The host of `url` as text; the outer `None` where the URL library rejects
/// the URL, the inner one where the URL has no host.
pub uninterp spec fn url_host(url: Seq<char>) -> Option<Option<Seq<char>>>;

/// `url::Url::path_segments` on the URL that `url::Url::parse` reads out of
/// `url`. The result holds the segments in order, or nothing where either of
/// the two gives nothing.
#[verifier::external_body]
pub(crate) fn path_segments(url: &str) -> (r: Option<Vec<String>>)
    ensures
        opt_texts(r) == url_segments(url@),
{
    match url::Url::parse(url) {
        Ok(parsed) => parsed.path_segments().map(|parts| parts.map(str::to_owned).collect()),
        Err(_) => None,
    }
}

/// `url::Url::host` on the URL that `url::Url::parse` reads out of `url`,
/// written as text.
#[verifier::external_body]
pub(crate) fn host(url: &str) -> (r: Option<Option<String>>)
    ensures
        match r {
            Some(h) => url_host(url@) == Some(opt_view(h)),
            None => url_host(url@) is None,
        },
{
    match url::Url::parse(url) {
        Ok(parsed) => Some(parsed.host().map(|h| h.to_string())),
        Err(_) => None,
    }
}

/// The last component of the path `path`, as `std::path::Path::file_name`
/// finds it; `None` where the path ends in `..` or holds no component. What
/// parts a path is made of follows the path syntax of the system that the
/// library is built for.
pub uninterp spec fn path_file_name(path: Seq<char>) -> Option<Seq<char>>;

/// `std::path::Path::file_name` on `path`, written as text. The result is
/// the last component of the path, or nothing where it has none.
#[verifier::external_body]
pub(crate) fn file_name(path: &str) -> (r: Option<String>)
    ensures
        opt_view(r) == path_file_name(path@),
{
    std::path::Path::new(path).file_name().map(|name| name.to_string_lossy().into_owned())
}

/// A character that must not stand in a file name.
pub open spec fn is_forbidden(c: char) -> bool {
    c == '/' || c == '\\' || c == ':' || c == '*' || c == '?' || c == '"' || c == '<' || c == '>'
        || c == '|' || c == '%' || c == '[' || c == ']'
}

/// `text` with every forbidden character replaced by an underscore.
pub open spec fn without_forbidden(text: Seq<char>) -> Seq<char> {
    text.map_values(
        |c: char|
            if is_forbidden(c) {
                '_'
            } else {
                c
            },
    )
}

/// Whether `c` must not stand in a file name.
pub fn forbidden(c: char) -> (r: bool)
    ensures
        r == is_forbidden(c),
{
    c == '/' || c == '\\' || c == ':' || c == '*' || c == '?' || c == '"' || c == '<' || c == '>'
        || c == '|' || c == '%' || c == '[' || c == ']'
}

/// `text` with every forbidden character replaced by an underscore.
pub fn replace_forbidden(text: &str) -> (r: String)
    ensures
        r@ == without_forbidden(text@),
{
    let chars = chars_of(text);
    let mut out: Vec<char> = Vec::new();
    let mut i: usize = 0;
    while i < chars.len()
        invariant
            i <= chars@.len(),
            out@ == without_forbidden(chars@.take(i as int)),
        decreases chars@.len() - i,
    {
        let c = chars[i];
        if forbidden(c) {
            out.push('_');
        } else {
            out.push(c);
        }
        i = i + 1;
        assert(out@ =~= without_forbidden(chars@.take(i as int)));
    }
    assert(chars@.take(chars@.len() as int) == chars@);
    text_of(out.as_slice())
}

/// The path segment of `url` at `index`, counted from zero.
pub open spec fn segment_at(url: Seq<char>, index: int) -> Option<Seq<char>> {
    match url_segments(url) {
        Some(parts) => if 0 <= index < parts.len() {
            Some(parts[index])
        } else {
            None
        },
        None => None,
    }
}

/// The path segment of `url` at `index`, counted from zero; `None` where the
/// URL does not parse or its path is shorter.
pub fn nth_segment(url: &str, index: usize) -> (r: Option<String>)
    ensures
        opt_view(r) == segment_at(url@, index as int),
{
    match path_segments(url) {
        Some(parts) => if index < parts.len() {
            Some(parts[index].clone())
        } else {
            None
        },
        None => None,
    }
}

/// The identifier of the book at `url`: the segment behind the first one, as
/// in `https://host/fiction/<id>/<title>`.
pub fn get_id_from_url(url: &str) -> (r: Option<String>)
    ensures
        opt_view(r) == segment_at(url@, 1),
{
    nth_segment(url, 1)
}

} // verus!
