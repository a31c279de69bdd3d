//! Regular-expression validation, backed by the `regex` crate.  A compiled
//! pattern is opaque; the contracts speak of the pattern text it was built
//! from.

use vstd::prelude::*;
use crate::text::StrValue;
use crate::utils::Error;

verus! {

#[verifier::external_type_specification]
#[verifier::external_body]
pub struct ExRegex(regex::Regex);

/// Whether the `regex` crate accepts a pattern; it depends on the text alone.
pub uninterp spec fn regex_valid(pattern: Seq<char>) -> bool;

/// Whether a pattern matches a haystack, for a pattern the crate accepts; it
/// depends on the two texts alone.
pub uninterp spec fn regex_match(pattern: Seq<char>, text: Seq<char>) -> bool;

/// The pattern text a compiled regex was built from.
pub uninterp spec fn regex_source(re: regex::Regex) -> Seq<char>;

/// Relies on `regex::Regex::new`: compiles a pattern; success depends on the
/// pattern text alone, and the compiled value keeps that text as its source.
#[verifier::external_body]
pub(crate) fn regex_new(pattern: &str) -> (r: Option<regex::Regex>)
    ensures
        r is Some <==> regex_valid(pattern@),
        r matches Some(re) ==> regex_source(re) == pattern@,
{
    match regex::Regex::new(pattern) {
        Ok(re) => Some(re),
        Err(_) => None,
    }
}

/// Relies on `regex::Regex::is_match`: whether the compiled pattern matches
/// anywhere in the haystack; the outcome depends on the pattern's source text
/// and the haystack alone.
#[verifier::external_body]
pub(crate) fn regex_is_match(re: &regex::Regex, text: &str) -> (b: bool)
    ensures
        b == regex_match(regex_source(*re), text@),
{
    re.is_match(text)
}

/// Checks whether the regex crate accepts a pattern, as the generator does
/// for a regex literal at generation time.
pub fn regex_pattern_valid(pattern: &str) -> (b: bool)
    ensures
        b == regex_valid(pattern@),
{
    regex_new(pattern).is_some()
}

/// Whether a value passes [`validate_regex`] for a given pattern: the
/// pattern is nonempty and accepted by the regex crate, and matches the text.
pub open spec fn regex_check_ok(pattern: Seq<char>, text: Seq<char>) -> bool {
    &&& pattern.len() > 0
    &&& regex_valid(pattern)
    &&& regex_match(pattern, text)
}

/// Validates that the given value matches the given pattern.  An empty or
/// invalid pattern is itself an error.  Returns the value unchanged exactly
/// when [`regex_check_ok`] holds of the pattern and the value's text.
#[must_use]
pub fn validate_regex<T: StrValue>(value: T, pattern: &str) -> (r: Result<T, Error>)
    ensures
        r is Ok <==> regex_check_ok(pattern@, value.str_view()),
        r matches Ok(v) ==> v == value,
{
    if pattern.unicode_len() == 0 {
        return Err(Error::new("regex cannot be empty"));
    }
    let Some(re) = regex_new(pattern) else {
        return Err(Error::new("invalid regex"));
    };
    if regex_is_match(&re, value.as_text()) {
        Ok(value)
    } else {
        Err(Error::new("regex validation failed"))
    }
}

} // verus!
