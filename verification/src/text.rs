//! Text operations that are taken from the standard library as they are.

use vstd::prelude::*;

verus! {

/// What `str::to_uppercase` makes of `text`: each character replaced by its
/// upper-case form in Unicode, which may be more than one character.
pub uninterp spec fn uppercase(text: Seq<char>) -> Seq<char>;

/// Calls `str::to_uppercase`. The result is a function of the text alone; it
/// is named [`uppercase`] and not spelled out.
#[verifier::external_body]
pub(crate) fn to_uppercase(text: &str) -> (upper: String)
    ensures
        upper@ == uppercase(text@),
{
    text.to_uppercase()
}

} // verus!
