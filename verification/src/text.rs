//! Comparing configuration names.

use vstd::prelude::*;

verus! {

/// Whether two strings hold the same characters.
///
/// Calls `==` of std on two `str` values (`<str as PartialEq>::eq`), which
/// std documents as equality of contents. The contract says exactly that,
/// over the two views; it is taken on trust.
#[verifier::external_body]
pub(crate) fn str_eq(a: &str, b: &str) -> (same: bool)
    ensures
        same == (a@ == b@),
{
    a == b
}

} // verus!
