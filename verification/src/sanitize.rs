//! Cleaning scraped HTML before it goes into a chapter document.

use crate::text::{chars_of, opt_view, replace, replaced, text_of};
use vstd::prelude::*;
use vstd::string::StrSliceExecFns;

verus! {

/// A `font-family` declaration with the white space before it, up to and
/// with its semicolon, or up to the quote that closes the style.
pub const FONT_FAMILY: &'static str = r#"\s*font-family:[^;"]*(?:;\s*|("))"#;

/// A `font-family` declaration that runs up to the closing quote.
pub const FONT_FAMILY_LAST: &'static str = r#"font-family:[^;"]*""#;

/// A `font-weight` of `normal`.
pub const FONT_WEIGHT_NORMAL: &'static str = r#"font-weight:\s?normal"#;

/// A `font-weight` of 400.
pub const FONT_WEIGHT_400: &'static str = r#"font-weight:\s?400"#;

/// A `class` attribute with the space before it.
pub const CLASS_ATTRIBUTE: &'static str = r#" class="[^"]*""#;

/// An `img` tag that is not closed.
pub const OPEN_IMG: &'static str = r#"(<img[^>]*[^/])>"#;

/// A paragraph that holds nothing but white space.
pub const EMPTY_PARAGRAPH: &'static str = r#"<p[^>]*>\s*</p>"#;

/// An `overflow` of `auto`.
pub const OVERFLOW_AUTO: &'static str = r#"overflow:\s?auto"#;

/// `text` with every match of the regular expression `pattern` replaced by
/// `replacement`, in which `$1` stands for what the first group matched, as
/// the regular-expression library does it; `None` where `pattern` is no
/// regular expression.
pub uninterp spec fn regex_replaced(
    pattern: Seq<char>,
    text: Seq<char>,
    replacement: Seq<char>,
) -> Option<Seq<char>>;

/// `regex::Regex::replace_all` of the expression that `regex::Regex::new`
/// compiles from `pattern`, on `text` with `replacement`. The result is the
/// text after all replacements, or nothing where `pattern` does not compile.
#[verifier::external_body]
fn regex_replace_all(pattern: &str, text: &str, replacement: &str) -> (r: Option<String>)
    ensures
        opt_view(r) == regex_replaced(pattern@, text@, replacement@),
{
    match regex::Regex::new(pattern) {
        Ok(expression) => Some(expression.replace_all(text, replacement).into_owned()),
        Err(_) => None,
    }
}

/// One pass of the sanitizer: `text` after the replacements, or `text` itself
/// where the pattern is no regular expression.
pub open spec fn pass(pattern: Seq<char>, text: Seq<char>, replacement: Seq<char>) -> Seq<char> {
    match regex_replaced(pattern, text, replacement) {
        Some(cleaned) => cleaned,
        None => text,
    }
}

/// Applies one pass of the sanitizer to the outcome of the replacement.
pub fn apply_pass(text: String, outcome: Option<String>) -> (r: String)
    ensures
        r@ == match opt_view(outcome) {
            Some(cleaned) => cleaned,
            None => text@,
        },
{
    match outcome {
        Some(cleaned) => cleaned,
        None => text,
    }
}

fn run_pass(pattern: &str, text: String, replacement: &str) -> (r: String)
    ensures
        r@ == pass(pattern@, text@, replacement@),
{
    let outcome = regex_replace_all(pattern, text.as_str(), replacement);
    apply_pass(text, outcome)
}

fn substitute(text: String, from: &str, to: &str) -> (r: String)
    ensures
        r@ == replaced(text@, from@, to@),
{
    let chars = chars_of(text.as_str());
    let from = chars_of(from);
    let to = chars_of(to);
    let out = replace(chars.as_slice(), from.as_slice(), to.as_slice());
    text_of(out.as_slice())
}

/// Sentences that some sites weave into chapters to mark copies; they are
/// taken out of what goes into an archive.
pub open spec fn boilerplate() -> Seq<Seq<char>> {
    seq![
        "This story has been stolen from Royal Road. If you read it on Amazon, please report it"@,
        "This content has been unlawfully taken from Royal Road; report any instances of this story if found elsewhere."@,
        "Stolen from Royal Road, this story should be reported if encountered on Amazon."@,
        "Unauthorized use of content: if you find this story on Amazon, report the violation."@,
        "If you encounter this story on Amazon, note that it's taken without permission from the author. Report it."@,
        "This tale has been unlawfully lifted without the author's consent. Report any appearances on Amazon."@,
        "The story has been taken without consent; if you see it on Amazon, report the incident."@,
        "Did you know this story is from Royal Road? Read the official version for free and support the author."@,
    ]
}

/// `text` without the first `count` sentences of the boilerplate list.
pub open spec fn without_boilerplate(text: Seq<char>, count: nat) -> Seq<char>
    decreases count,
{
    if count == 0 {
        text
    } else {
        replaced(
            without_boilerplate(text, (count - 1) as nat),
            boilerplate()[count - 1],
            Seq::empty(),
        )
    }
}

/// The sentences of the boilerplate list.
pub fn boilerplate_list() -> (r: Vec<&'static str>)
    ensures
        r@.len() == boilerplate().len(),
        forall|i: int| 0 <= i < r@.len() ==> (#[trigger] r@[i])@ == boilerplate()[i],
{
    let mut list: Vec<&'static str> = Vec::new();
    list.push("This story has been stolen from Royal Road. If you read it on Amazon, please report it");
    list.push(
        "This content has been unlawfully taken from Royal Road; report any instances of this story if found elsewhere.",
    );
    list.push("Stolen from Royal Road, this story should be reported if encountered on Amazon.");
    list.push("Unauthorized use of content: if you find this story on Amazon, report the violation.");
    list.push(
        "If you encounter this story on Amazon, note that it's taken without permission from the author. Report it.",
    );
    list.push(
        "This tale has been unlawfully lifted without the author's consent. Report any appearances on Amazon.",
    );
    list.push("The story has been taken without consent; if you see it on Amazon, report the incident.");
    list.push(
        "Did you know this story is from Royal Road? Read the official version for free and support the author.",
    );
    list
}

/// `text` without any sentence of the boilerplate list.
pub fn remove_boilerplate(text: String) -> (r: String)
    ensures
        r@ == without_boilerplate(text@, boilerplate().len()),
{
    let list = boilerplate_list();
    let mut out = text;
    let mut i: usize = 0;
    while i < list.len()
        invariant
            i <= list@.len(),
            list@.len() == boilerplate().len(),
            forall|k: int| 0 <= k < list@.len() ==> (#[trigger] list@[k])@ == boilerplate()[k],
            out@ == without_boilerplate(text@, i as nat),
        decreases list@.len() - i,
    {
        out = substitute(out, list[i], "");
        proof {
            reveal_strlit("");
            assert(""@ =~= Seq::<char>::empty());
        }
        i = i + 1;
    }
    out
}

/// An HTML fragment after one round of cleaning: font families, normal font
/// weights and `class` attributes are gone, `img`, `br` and `hr` tags are
/// closed, paragraphs that hold only a non-breaking space are gone, and so
/// are `overflow: auto` and the boilerplate sentences.
pub open spec fn cleaned_once(text: Seq<char>) -> Seq<char> {
    let t = pass(FONT_FAMILY@, text, "$1"@);
    let t = pass(FONT_FAMILY_LAST@, t, "\""@);
    let t = pass(FONT_WEIGHT_NORMAL@, t, ""@);
    let t = pass(FONT_WEIGHT_400@, t, ""@);
    let t = pass(CLASS_ATTRIBUTE@, t, ""@);
    let t = pass(OPEN_IMG@, t, "$1/>"@);
    let t = replaced(t, "<br>"@, "<br/>"@);
    let t = replaced(t, "<hr>"@, "<hr/>"@);
    let t = replaced(t, "&nbsp;"@, " "@);
    let t = pass(EMPTY_PARAGRAPH@, t, ""@);
    let t = pass(OVERFLOW_AUTO@, t, ""@);
    without_boilerplate(t, boilerplate().len())
}

/// `text` cleaned round after round, until a round changes nothing or
/// `rounds` rounds have changed something.
pub open spec fn settled(text: Seq<char>, rounds: nat) -> Seq<char>
    decreases rounds,
{
    if rounds == 0 || cleaned_once(text) == text {
        text
    } else {
        settled(cleaned_once(text), (rounds - 1) as nat)
    }
}

/// Within `rounds` rounds of cleaning `text`, a round changes nothing.
pub open spec fn settles(text: Seq<char>, rounds: nat) -> bool
    decreases rounds,
{
    cleaned_once(text) == text || (rounds > 0 && settles(
        cleaned_once(text),
        (rounds - 1) as nat,
    ))
}

/// The rounds that cleaning `text` may take: one more than it has characters.
pub open spec fn rounds_for(text: Seq<char>) -> nat {
    text.len() + 1
}

/// An HTML fragment made fit for a chapter document: cleaned round after
/// round until a round changes nothing, so that what one round uncovers,
/// such as a paragraph left empty, is cleaned by the next.
pub open spec fn sanitized(text: Seq<char>) -> Seq<char> {
    settled(text, rounds_for(text))
}

/// Where cleaning settles, another round changes nothing.
pub proof fn lemma_settled_is_clean(text: Seq<char>, rounds: nat)
    requires
        settles(text, rounds),
    ensures
        cleaned_once(settled(text, rounds)) == settled(text, rounds),
    decreases rounds,
{
    if rounds > 0 && cleaned_once(text) != text {
        lemma_settled_is_clean(cleaned_once(text), (rounds - 1) as nat);
    }
}

/// What a round of cleaning does not change is clean as it is.
pub proof fn lemma_clean_text_stays(text: Seq<char>, rounds: nat)
    requires
        cleaned_once(text) == text,
    ensures
        settled(text, rounds) == text,
{
}

/// Sanitizing is idempotent: sanitizing what was sanitized changes nothing,
/// wherever the cleaning of `text` settles within the rounds it may take.
pub proof fn lemma_sanitizing_twice_is_sanitizing_once(text: Seq<char>)
    requires
        settles(text, rounds_for(text)),
    ensures
        sanitized(sanitized(text)) == sanitized(text),
        cleaned_once(sanitized(text)) == sanitized(text),
{
    lemma_settled_is_clean(text, rounds_for(text));
    lemma_clean_text_stays(sanitized(text), rounds_for(sanitized(text)));
}

/// One round of cleaning.
pub fn clean_once(content: &str) -> (r: String)
    ensures
        r@ == cleaned_once(content@),
{
    let content = run_pass(FONT_FAMILY, content.to_owned(), "$1");
    let content = run_pass(FONT_FAMILY_LAST, content, "\"");
    let content = run_pass(FONT_WEIGHT_NORMAL, content, "");
    let content = run_pass(FONT_WEIGHT_400, content, "");
    let content = run_pass(CLASS_ATTRIBUTE, content, "");
    let content = run_pass(OPEN_IMG, content, "$1/>");
    let content = substitute(content, "<br>", "<br/>");
    let content = substitute(content, "<hr>", "<hr/>");
    let content = substitute(content, "&nbsp;", " ");
    let content = run_pass(EMPTY_PARAGRAPH, content, "");
    let content = run_pass(OVERFLOW_AUTO, content, "");
    remove_boilerplate(content)
}

/// Makes a scraped HTML fragment fit for a chapter document. Where the
/// cleaning settles, the result is clean: cleaning it again changes nothing.
pub fn clean_html(content: &str) -> (r: String)
    ensures
        r@ == sanitized(content@),
        settles(content@, rounds_for(content@)) ==> cleaned_once(r@) == r@ && sanitized(r@) == r@,
{
    let mut text = content.to_owned();
    let mut left: u128 = content.unicode_len() as u128 + 1;
    while left > 0
        invariant
            left <= rounds_for(content@),
            settled(content@, rounds_for(content@)) == settled(text@, left as nat),
            settles(content@, rounds_for(content@)) ==> settles(text@, left as nat),
        decreases left,
    {
        let next = clean_once(text.as_str());
        if next == text {
            proof {
                lemma_clean_text_stays(text@, rounds_for(text@));
            }
            return text;
        }
        text = next;
        left = left - 1;
    }
    proof {
        if settles(content@, rounds_for(content@)) {
            lemma_clean_text_stays(text@, rounds_for(text@));
        }
    }
    text
}

} // verus!
