//! Lower case, as the filters and the fuzzy search fold their texts.

use vstd::prelude::*;

verus! {

/// The text that `str::to_lowercase` returns for `text`.
pub uninterp spec fn lowercase(text: Seq<char>) -> Seq<char>;

/// One of the letters `A` to `Z`.
pub open spec fn is_ascii_capital(c: char) -> bool {
    'A' <= c && c <= 'Z'
}

/// The text holds none of the letters `A` to `Z`.
pub open spec fn has_no_ascii_capital(text: Seq<char>) -> bool {
    forall|i: int| 0 <= i < text.len() ==> !is_ascii_capital(#[trigger] text[i])
}

/// `str::to_lowercase`: the lower-case form of the text, as Unicode defines
/// it. Each of the letters `A` to `Z` has a lower-case form, so none of them
/// is left in the result.
#[verifier::external_body]
pub(crate) fn to_lowercase(text: &str) -> (lowered: String)
    ensures
        lowered@ == lowercase(text@),
        has_no_ascii_capital(lowered@),
{
    text.to_lowercase()
}

} // verus!
