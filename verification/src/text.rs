//! Comparison of string slices.

use vstd::prelude::*;

verus! {

/// Whether two string slices hold the same characters.
///
/// Trusted: this is `==` of `str` in the standard library, which compares the two
/// slices byte for byte. Valid UTF-8 stands for exactly one sequence of characters, so
/// equal bytes are equal characters.
#[verifier::external_body]
pub(crate) fn same_text(a: &str, b: &str) -> (r: bool)
    ensures
        r == (a@ == b@),
{
    a == b
}

} // verus!
