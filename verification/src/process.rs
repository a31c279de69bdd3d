//! In-place processing helpers: mutate a string binding directly, check a
//! length against bounds, match a precompiled pattern, and thread a value
//! through a caller-supplied step.

use vstd::prelude::*;
use vstd::string::*;
use crate::text::{lower_of, lowercase_str, trim_spec, trim_str};
use crate::utils::Error;
use crate::validators::regex::{regex_is_match, regex_match, regex_source};

verus! {

/// Trait to get the length of a value, used by [`length`].
pub trait Length {
    /// The length as a mathematical value.
    spec fn len_spec(&self) -> nat;

    /// Returns the length of the value.
    fn length(&self) -> (n: usize)
        ensures
            n as nat == self.len_spec(),
    ;
}

impl Length for String {
    open spec fn len_spec(&self) -> nat {
        self@.len()
    }

    fn length(&self) -> (n: usize)
        ensures
            n as nat == self.len_spec(),
    {
        self.as_str().unicode_len()
    }
}

impl Length for &str {
    open spec fn len_spec(&self) -> nat {
        self@.len()
    }

    fn length(&self) -> (n: usize)
        ensures
            n as nat == self.len_spec(),
    {
        self.unicode_len()
    }
}

impl<T> Length for Vec<T> {
    open spec fn len_spec(&self) -> nat {
        self@.len()
    }

    fn length(&self) -> (n: usize)
        ensures
            n as nat == self.len_spec(),
    {
        self.len()
    }
}

/// Checks a value's length against the given inclusive bounds; at least one
/// bound must be given.
pub fn length<T: Length>(val: &T, min: Option<usize>, max: Option<usize>) -> (r: Result<
    (),
    Error,
>)
    requires
        min is Some || max is Some,
    ensures
        r is Ok <==> ((min matches Some(m) ==> val.len_spec() >= m) && (max matches Some(m)
            ==> val.len_spec() <= m)),
{
    let val_length = val.length();
    if let Some(m) = min {
        if val_length < m {
            return Err(Error::new("input is shorter than the expected minimum length"));
        }
    }
    if let Some(m) = max {
        if val_length > m {
            return Err(Error::new("input is longer than the expected maximum length"));
        }
    }
    Ok(())
}

/// Trims the binding in place: afterwards it holds its old text without
/// leading and trailing whitespace.
pub fn trim(val: &mut String) -> (r: Result<(), Error>)
    ensures
        r is Ok,
        final (val)@ == trim_spec(old(val)@),
{
    let trimmed = trim_str(val.as_str());
    *val = trimmed;
    Ok(())
}

/// Lowercases the binding in place, as `str::to_lowercase` does.
pub fn lowercase(val: &mut String) -> (r: Result<(), Error>)
    ensures
        r is Ok,
        final (val)@ == lower_of(old(val)@),
{
    let lowered = lowercase_str(val.as_str());
    *val = lowered;
    Ok(())
}

/// Applies a caller-supplied processing step to a borrowed value.
pub fn process<T, F: FnOnce(&T) -> Result<(), Error>>(t: &T, f: F) -> (r: Result<(), Error>)
    requires
        call_requires(f, (t,)),
    ensures
        call_ensures(f, (t,), r),
{
    f(t)
}

/// Applies a caller-supplied processing step to a value, handing the
/// processed value back.
pub fn process_mut<T, F: FnOnce(T) -> Result<T, Error>>(t: T, f: F) -> (r: Result<T, Error>)
    requires
        call_requires(f, (t,)),
    ensures
        call_ensures(f, (t,), r),
{
    f(t)
}

/// Checks the value against a precompiled pattern.
pub fn regex<T: crate::text::StrValue>(val: &T, pat: &::regex::Regex) -> (r: Result<(), Error>)
    ensures
        r is Ok <==> regex_match(regex_source(*pat), val.str_view()),
{
    if regex_is_match(pat, val.as_text()) {
        Ok(())
    } else {
        Err(Error::new("input does not match required pattern"))
    }
}

} // verus!
