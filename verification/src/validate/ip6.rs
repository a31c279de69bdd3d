//! IPv6 validation in the struct-shaped API.

use vstd::prelude::*;
use vstd::string::*;
use crate::utils::Error;
use crate::validators::ip::{ipv6_ok, validate_ipv6, Ipv6Address};

verus! {

/// Validates whether the given string is an IPv6 address.
#[must_use]
pub fn validate_ip_v6(val: &str) -> (b: bool)
    ensures
        b == ipv6_ok(val@),
{
    validate_ipv6(val).is_ok()
}

/// Validator for whether the given string is an IPv6 address.
#[must_use]
#[derive(Debug, Clone)]
pub struct Ipv6AddrValidator {
    /// The text being validated.
    pub data: String,
}

impl Ipv6AddrValidator {
    /// Creates a validator from the given text.
    pub fn from(data: &str) -> (r: Self)
        ensures
            r.data@ == data@,
    {
        Ipv6AddrValidator { data: String::from_str(data) }
    }

    /// Validates whether the held string is an IPv6 address.
    pub fn validate(&self) -> (b: bool)
        ensures
            b == ipv6_ok(self.data@),
    {
        validate_ip_v6(self.data.as_str())
    }

    /// Parses the held string as an IPv6 address, or reports an error.
    pub fn preprocess(self) -> (r: Result<Ipv6Address, Error>)
        ensures
            r is Ok <==> ipv6_ok(self.data@),
    {
        validate_ipv6(self.data.as_str())
    }
}

} // verus!
