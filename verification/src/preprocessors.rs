//! Preprocessors mutate the given value: trimming whitespace and converting
//! case.  Each always succeeds and returns the new value.

use vstd::prelude::*;
use crate::text::{lower_of, lowercase_str, trim_spec, trim_str, upper_of, uppercase_str, StrValue};
use crate::PreResult;

verus! {

/// Removes leading and trailing whitespace from the given string.
#[must_use]
pub fn preprocess_trim<T: StrValue>(value: T) -> (r: PreResult<String>)
    ensures
        r matches Ok(s) && s@ == trim_spec(value.str_view()),
{
    Ok(trim_str(value.as_text()))
}

/// Converts the given string to lowercase, as `str::to_lowercase` does.
#[must_use]
pub fn preprocess_lowercase<T: StrValue>(value: T) -> (r: PreResult<String>)
    ensures
        r matches Ok(s) && s@ == lower_of(value.str_view()),
{
    Ok(lowercase_str(value.as_text()))
}

/// Converts the given string to uppercase, as `str::to_uppercase` does.
#[must_use]
pub fn preprocess_uppercase<T: StrValue>(value: T) -> (r: PreResult<String>)
    ensures
        r matches Ok(s) && s@ == upper_of(value.str_view()),
{
    Ok(uppercase_str(value.as_text()))
}

} // verus!
