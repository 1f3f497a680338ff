//! Text for messages.

use vstd::prelude::*;

verus! {

/// A text in quotes, as Rust prints one for a programmer.
pub uninterp spec fn quoted(text: Seq<char>) -> Seq<char>;

/// Formats the text with its `std::fmt::Debug`: what comes back is [`quoted`] of it.
#[verifier::external_body]
pub(crate) fn quote(text: &str) -> (out: String)
    ensures
        out@ == quoted(text@),
{
    format!("{:?}", text)
}

} // verus!
