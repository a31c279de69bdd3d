//! Length validation with a tagged bounds argument.

use vstd::prelude::*;
use vstd::string::*;
use crate::utils::Error;

verus! {

/// Trait to implement if one wants the length validator to work for more
/// types.
pub trait HasLength {
    /// The length as a mathematical value.
    spec fn len_spec(&self) -> nat;

    /// Returns the length of the value.
    fn length(&self) -> (n: usize)
        ensures
            n as nat == self.len_spec(),
    ;
}

impl HasLength for String {
    open spec fn len_spec(&self) -> nat {
        self@.len()
    }

    fn length(&self) -> (n: usize)
        ensures
            n as nat == self.len_spec(),
    {
        self.as_str().unicode_len()
    }
}

impl HasLength for &str {
    open spec fn len_spec(&self) -> nat {
        self@.len()
    }

    fn length(&self) -> (n: usize)
        ensures
            n as nat == self.len_spec(),
    {
        self.unicode_len()
    }
}

impl<T> HasLength for Vec<T> {
    open spec fn len_spec(&self) -> nat {
        self@.len()
    }

    fn length(&self) -> (n: usize)
        ensures
            n as nat == self.len_spec(),
    {
        self.len()
    }
}

/// How to validate a length: a minimum, a maximum, both, or an exact value;
/// all bounds are inclusive.
#[derive(Debug, Clone, Copy, PartialEq, Eq, Structural)]
pub enum LengthValidatorArgs {
    /// The length must be at least the given value.
    Min { min: usize },
    /// The length must be at most the given value.
    Max { max: usize },
    /// The length must lie between the given values.
    MinMax { min: usize, max: usize },
    /// The length must be exactly the given value.
    Exact { exact: usize },
}

impl Default for LengthValidatorArgs {
    /// The default asks for a minimum of zero, which every length meets.
    fn default() -> (r: Self)
        ensures
            r == (LengthValidatorArgs::Min { min: 0 }),
    {
        LengthValidatorArgs::Min { min: 0 }
    }
}

/// Whether a length meets the given bounds.
pub open spec fn length_args_ok(len: nat, args: LengthValidatorArgs) -> bool {
    match args {
        LengthValidatorArgs::Min { min } => len >= min,
        LengthValidatorArgs::Max { max } => len <= max,
        LengthValidatorArgs::MinMax { min, max } => len >= min && len <= max,
        LengthValidatorArgs::Exact { exact } => len == exact,
    }
}

/// Validates whether the length is valid as per the given bounds.
#[must_use]
pub fn validate_length(length: usize, args: LengthValidatorArgs) -> (b: bool)
    ensures
        b == length_args_ok(length as nat, args),
{
    match args {
        LengthValidatorArgs::Min { min } => length >= min,
        LengthValidatorArgs::Max { max } => length <= max,
        LengthValidatorArgs::MinMax { min, max } => length >= min && length <= max,
        LengthValidatorArgs::Exact { exact } => length == exact,
    }
}

/// Validator for whether a value's length meets the given bounds.
#[must_use]
pub struct LengthValidator<H: HasLength> {
    /// The value whose length is checked.
    pub value: H,
    /// The bounds to check against.
    pub args: LengthValidatorArgs,
}

impl<H: HasLength> LengthValidator<H> {
    /// Creates a validator from any value with a length, with the default
    /// bounds.
    pub fn from(value: H) -> (r: Self)
        ensures
            r.value == value,
            r.args == (LengthValidatorArgs::Min { min: 0 }),
    {
        LengthValidator { value, args: LengthValidatorArgs::Min { min: 0 } }
    }

    /// Validates whether the held value's length meets the bounds.
    pub fn validate(&self) -> (b: bool)
        ensures
            b == length_args_ok(self.value.len_spec(), self.args),
    {
        validate_length(self.value.length(), self.args)
    }

    /// The bounds the validator checks against.
    pub fn get_args(&self) -> (r: LengthValidatorArgs)
        ensures
            r == self.args,
    {
        self.args
    }

    /// Replaces the bounds the validator checks against.
    pub fn set_args(&mut self, args: LengthValidatorArgs)
        ensures
            final (self).args == args,
            final (self).value == old(self).value,
    {
        self.args = args;
    }

    /// Hands the value back when its length meets the bounds, and an error
    /// when it does not.
    pub fn preprocess(self) -> (r: Result<H, Error>)
        ensures
            r is Ok <==> length_args_ok(self.value.len_spec(), self.args),
            r matches Ok(v) ==> v == self.value,
    {
        if self.validate() {
            Ok(self.value)
        } else {
            Err(Error::new("invalid length"))
        }
    }
}

} // verus!
