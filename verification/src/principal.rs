//! Trusted declarations for the caller-identity type.
//!
//! A record's author is a `candid::Principal`, an opaque identity value.  The
//! library never looks inside one; it only stores principals and compares
//! them for equality.

use vstd::prelude::*;

verus! {

#[verifier::external_type_specification]
#[verifier::external_body]
pub struct ExPrincipal(candid::Principal);

/// Relies on `candid::Principal`'s derived `PartialEq`, which compares the
/// length and the whole content buffer, so it returns true exactly on equal
/// values.
#[verifier::external_body]
pub(crate) fn principal_eq(a: &candid::Principal, b: &candid::Principal) -> (r: bool)
    ensures
        r == (a == b),
{
    a == b
}

} // verus!
