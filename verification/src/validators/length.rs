//! Length validation for strings and collections.

use vstd::prelude::*;
use vstd::string::*;
use crate::utils::Error;

verus! {

/// Trait to get the length of a value, used by [`validate_length`].
/// For strings the length counts characters, not bytes.
pub trait HasLen {
    /// The length the validator checks, as a mathematical value.
    spec fn len_spec(&self) -> nat;

    /// Returns the length of the value.
    fn length(&self) -> (n: usize)
        ensures
            n as nat == self.len_spec(),
    ;
}

impl HasLen for String {
    open spec fn len_spec(&self) -> nat {
        self@.len()
    }

    fn length(&self) -> (n: usize)
        ensures
            n as nat == self.len_spec(),
    {
        self.as_str().unicode_len()
    }
}

impl HasLen for &str {
    open spec fn len_spec(&self) -> nat {
        self@.len()
    }

    fn length(&self) -> (n: usize)
        ensures
            n as nat == self.len_spec(),
    {
        self.unicode_len()
    }
}

impl<T> HasLen for Vec<T> {
    open spec fn len_spec(&self) -> nat {
        self@.len()
    }

    fn length(&self) -> (n: usize)
        ensures
            n as nat == self.len_spec(),
    {
        self.len()
    }
}

/// Whether a length satisfies the given bounds: the exact bound when present,
/// and the inclusive minimum and maximum when present.
pub open spec fn length_ok(
    len: nat,
    min: Option<usize>,
    max: Option<usize>,
    equal: Option<usize>,
) -> bool {
    &&& (equal matches Some(m) ==> len == m)
    &&& (min matches Some(m) ==> len >= m)
    &&& (max matches Some(m) ==> len <= m)
}

/// Validates the length of the given value against the bounds; every given
/// bound is checked, the exact bound first.  Returns the value unchanged when
/// all bounds hold.
#[must_use]
pub fn validate_length<T: HasLen>(
    value: T,
    min: Option<usize>,
    max: Option<usize>,
    equal: Option<usize>,
) -> (r: Result<T, Error>)
    ensures
        r is Ok <==> length_ok(value.len_spec(), min, max, equal),
        r matches Ok(v) ==> v == value,
{
    let len = value.length();
    if let Some(m) = equal {
        if len != m {
            return Err(Error::new("length must be equal to the expected value"));
        }
    }
    if let Some(m) = min {
        if len < m {
            return Err(Error::new("length must be greater than or equal to the minimum"));
        }
    }
    if let Some(m) = max {
        if len > m {
            return Err(Error::new("length must be less than or equal to the maximum"));
        }
    }
    Ok(value)
}

} // verus!
