//! Range validation for ordered values.

use vstd::prelude::*;
use vstd::std_specs::cmp::PartialOrdSpec;
use core::cmp::Ordering;
use crate::utils::Error;

verus! {

/// Whether a value lies inside the given inclusive bounds, stated over the
/// type's comparison specification.
pub open spec fn range_ok<T: PartialOrd>(value: T, min: Option<T>, max: Option<T>) -> bool {
    &&& (max matches Some(m) ==> value.partial_cmp_spec(&m) != Some(Ordering::Greater))
    &&& (min matches Some(m) ==> value.partial_cmp_spec(&m) != Some(Ordering::Less))
}

/// Validates that the given value is inside the defined range.  The `max` and
/// `min` bounds are optional and only checked when present, the maximum
/// first.  Returns the value unchanged when the bounds hold.
#[must_use]
pub fn validate_range<T: PartialOrd>(value: T, min: Option<T>, max: Option<T>) -> (r: Result<
    T,
    Error,
>)
    ensures
        T::obeys_partial_cmp_spec() ==> (r is Ok <==> range_ok(value, min, max)),
        r matches Ok(v) ==> v == value,
{
    if let Some(m) = &max {
        if value.gt(m) {
            return Err(Error::new("value must be less than or equal to the maximum"));
        }
    }
    if let Some(m) = &min {
        if value.lt(m) {
            return Err(Error::new("value must be greater than or equal to the minimum"));
        }
    }
    Ok(value)
}

} // verus!
