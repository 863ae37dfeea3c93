//! Quoting text the way a debug listing shows it.

use vstd::prelude::*;

verus! {

/// The text of `s` as the standard debug formatting of a string shows it:
/// in double quotes, with quotes, backslashes and control characters escaped.
pub uninterp spec fn debug_quoted(s: Seq<char>) -> Seq<char>;

/// `format!("{:?}", s)` for a string. Its result is given the name
/// `debug_quoted`; the standard library's escaping rules are not restated.
#[verifier::external_body]
pub(crate) fn quote(s: &str) -> (r: String)
    ensures
        r@ == debug_quoted(s@),
{
    format!("{:?}", s)
}

} // verus!
