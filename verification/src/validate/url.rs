//! URL validation in the struct-shaped API.

use vstd::prelude::*;
use vstd::string::*;
use crate::utils::Error;
use crate::validators::url::{parse_url, url_ok};

verus! {

/// Validates whether the string given is a URL.
#[must_use]
pub fn validate_url(url: &str) -> (b: bool)
    ensures
        b == url_ok(url@),
{
    parse_url(url).is_some()
}

/// Validator for whether the given string is a URL.
#[must_use]
#[derive(Debug, Clone)]
pub struct UrlValidator {
    /// The text being validated.
    pub data: String,
}

impl UrlValidator {
    /// Creates a validator from the given text.
    pub fn from(data: &str) -> (r: Self)
        ensures
            r.data@ == data@,
    {
        UrlValidator { data: String::from_str(data) }
    }

    /// Validates whether the held string is a URL.
    pub fn validate(&self) -> (b: bool)
        ensures
            b == url_ok(self.data@),
    {
        validate_url(self.data.as_str())
    }

    /// Parses the held string as a URL, or reports an error.
    pub fn preprocess(self) -> (r: Result<url::Url, Error>)
        ensures
            r is Ok <==> url_ok(self.data@),
    {
        match parse_url(self.data.as_str()) {
            Some(u) => Ok(u),
            None => Err(Error::new("invalid url")),
        }
    }
}

} // verus!
