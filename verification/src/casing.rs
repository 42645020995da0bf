//! Title case for payees, as the `voca_rs` crate defines it.

use vstd::prelude::*;

verus! {

/// What `voca_rs::case::title_case` makes of a text: its words, each with a
/// capital first letter and the rest in lower case, joined by single
/// spaces. How the text is split into words is the crate's own business.
pub uninterp spec fn title_cased(text: Seq<char>) -> Seq<char>;

/// Wraps `voca_rs::case::title_case`. Nothing is proved of the result but
/// that it is the crate's title case of `text`.
#[verifier::external_body]
pub(crate) fn title_case(text: &str) -> (result: String)
    ensures
        result@ == title_cased(text@),
{
    voca_rs::case::title_case(text)
}

} // verus!
