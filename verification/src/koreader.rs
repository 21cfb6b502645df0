//! The reading progress that KOReader keeps beside a book.

use crate::text::{chars_of, replace, replaced, text_of};
use vstd::prelude::*;

verus! {

/// How KOReader records that a book has been read to the end.
pub const FINISHED: &'static str = "[\"percent_finished\"] = 1";

/// How KOReader records that a book has almost been read to the end.
pub const ALMOST_FINISHED: &'static str = "[\"percent_finished\"] = 0.99";

/// The progress record `metadata` of a book that has grown: where it said
/// that the book was finished, it says that the book is almost finished.
pub fn change_progression_to_99_percent(metadata: &str) -> (r: String)
    ensures
        r@ == replaced(metadata@, FINISHED@, ALMOST_FINISHED@),
{
    let chars = chars_of(metadata);
    let from = chars_of(FINISHED);
    let to = chars_of(ALMOST_FINISHED);
    let out = replace(chars.as_slice(), from.as_slice(), to.as_slice());
    text_of(out.as_slice())
}

} // verus!
