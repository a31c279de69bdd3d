//! The negated containment check.

use vstd::prelude::*;
use crate::utils::Error;
use crate::validators::contains::Contains;

verus! {

/// Validates that the value does not contain the given needle; returns the
/// value unchanged exactly when it does not.
#[must_use]
pub fn validate_does_not_contain<T: Contains>(value: T, needle: &str) -> (r: Result<T, Error>)
    ensures
        r is Ok <==> !value.contains_spec(needle@),
        r matches Ok(v) ==> v == value,
{
    if value.contains(needle) {
        Err(Error::new("value contains the needle"))
    } else {
        Ok(value)
    }
}

} // verus!
