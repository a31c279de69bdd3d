//! IPv4 validation in the struct-shaped API.

use vstd::prelude::*;
use vstd::string::*;
use crate::utils::Error;
use crate::validators::ip::{ipv4_ok, validate_ipv4, Ipv4Address};

verus! {

/// Validates whether the given string is an IPv4 address.
#[must_use]
pub fn validate_ip_v4(val: &str) -> (b: bool)
    ensures
        b == ipv4_ok(val@),
{
    validate_ipv4(val).is_ok()
}

/// Validator for whether the given string is an IPv4 address.
#[must_use]
#[derive(Debug, Clone)]
pub struct Ipv4AddrValidator {
    /// The text being validated.
    pub data: String,
}

impl Ipv4AddrValidator {
    /// Creates a validator from the given text.
    pub fn from(data: &str) -> (r: Self)
        ensures
            r.data@ == data@,
    {
        Ipv4AddrValidator { data: String::from_str(data) }
    }

    /// Validates whether the held string is an IPv4 address.
    pub fn validate(&self) -> (b: bool)
        ensures
            b == ipv4_ok(self.data@),
    {
        validate_ip_v4(self.data.as_str())
    }

    /// Parses the held string as an IPv4 address, or reports an error.
    pub fn preprocess(self) -> (r: Result<Ipv4Address, Error>)
        ensures
            r is Ok <==> ipv4_ok(self.data@),
    {
        validate_ipv4(self.data.as_str())
    }
}

} // verus!
