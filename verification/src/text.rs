//! Trusted declarations for the two text operations the library takes from
//! the standard library, and the substring predicate the query engine is
//! specified with.

use vstd::prelude::*;

verus! {

/// The Unicode lowercasing of `s`.  `str::to_lowercase` depends on the
/// characters alone, so its result can be named.
pub uninterp spec fn lower_of(s: Seq<char>) -> Seq<char>;

/// Relies on `str::to_lowercase`: the result is a function of the characters
/// alone, the same on every machine.
#[verifier::external_body]
pub(crate) fn lowercase(s: &str) -> (r: String)
    ensures
        r@ == lower_of(s@),
{
    s.to_lowercase()
}

/// `needle` occurs contiguously somewhere in `hay`.
pub open spec fn is_substring(hay: Seq<char>, needle: Seq<char>) -> bool {
    exists|i: int|
        0 <= i <= hay.len() - needle.len() && #[trigger] hay.subrange(i, i + needle.len())
            == needle
}

/// Relies on `str::contains` with a `&str` pattern: it returns true exactly
/// when the pattern matches a sub-slice of the string.  A byte-level match of
/// valid UTF-8 always falls on character boundaries, so this coincides with
/// containment on the character sequences.
#[verifier::external_body]
pub(crate) fn contains_sub(hay: &str, needle: &str) -> (r: bool)
    ensures
        r == is_substring(hay@, needle@),
{
    hay.contains(needle)
}

} // verus!
