//! URL validation, backed by the `url` crate's parser.

use vstd::prelude::*;
use crate::text::StrValue;
use crate::utils::Error;

verus! {

#[verifier::external_type_specification]
#[verifier::external_body]
pub struct ExUrl(url::Url);

/// Whether the `url` crate's parser accepts a string as an absolute URL; it
/// depends on the text alone.
pub uninterp spec fn url_ok(s: Seq<char>) -> bool;

/// Relies on `url::Url::parse`: parses an absolute URL; success depends on
/// the text alone.
#[verifier::external_body]
pub(crate) fn parse_url(s: &str) -> (r: Option<url::Url>)
    ensures
        r is Some <==> url_ok(s@),
{
    match url::Url::parse(s) {
        Ok(u) => Some(u),
        Err(_) => None,
    }
}

/// Checks that the given value parses as a URL, and returns the parsed URL.
/// Succeeds exactly when [`url_ok`] holds of the value's text.
#[must_use]
pub fn validate_url<T: StrValue>(domain: T) -> (r: Result<url::Url, Error>)
    ensures
        r is Ok <==> url_ok(domain.str_view()),
{
    match parse_url(domain.as_text()) {
        Some(u) => Ok(u),
        None => Err(Error::new("invalid url")),
    }
}

} // verus!
