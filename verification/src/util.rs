//! Small general helpers.

use vstd::prelude::*;

verus! {

/// Relies on `std::mem::discriminant`: equal discriminants mean the two
/// values are of the same enum variant, their payloads ignored.
#[verifier::external_body]
pub fn variant_eq<T>(a: &T, b: &T) -> bool {
    std::mem::discriminant(a) == std::mem::discriminant(b)
}

} // verus!
