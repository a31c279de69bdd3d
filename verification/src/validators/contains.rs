//! Containment checks: whether a value holds a given needle.

use vstd::prelude::*;
use vstd::string::*;
use std::collections::HashMap;
use crate::text::{contains_seq, str_contains, str_eq};
use crate::utils::Error;

verus! {

/// Trait to check if a value contains a given needle, used by
/// [`validate_contains`] and
/// [`validate_does_not_contain`](crate::validators::does_not_contain::validate_does_not_contain).
pub trait Contains {
    /// Whether the value holds the needle, as a mathematical statement.
    spec fn contains_spec(&self, needle: Seq<char>) -> bool;

    /// Checks if the value contains the given needle.
    fn contains(&self, needle: &str) -> (b: bool)
        ensures
            b == self.contains_spec(needle@),
    ;
}

impl Contains for String {
    open spec fn contains_spec(&self, needle: Seq<char>) -> bool {
        contains_seq(self@, needle)
    }

    fn contains(&self, needle: &str) -> (b: bool)
        ensures
            b == self.contains_spec(needle@),
    {
        str_contains(self.as_str(), needle)
    }
}

impl Contains for &str {
    open spec fn contains_spec(&self, needle: Seq<char>) -> bool {
        contains_seq(self@, needle)
    }

    fn contains(&self, needle: &str) -> (b: bool)
        ensures
            b == self.contains_spec(needle@),
    {
        str_contains(self, needle)
    }
}

impl Contains for Vec<String> {
    open spec fn contains_spec(&self, needle: Seq<char>) -> bool {
        exists|i: int| 0 <= i < self@.len() && #[trigger] self@[i]@ == needle
    }

    fn contains(&self, needle: &str) -> (b: bool)
        ensures
            b == self.contains_spec(needle@),
    {
        let mut i: usize = 0;
        while i < self.len()
            invariant
                0 <= i <= self@.len(),
                forall|k: int| 0 <= k < i ==> #[trigger] self@[k]@ != needle@,
            decreases self@.len() - i,
        {
            if str_eq(self[i].as_str(), needle) {
                return true;
            }
            i += 1;
        }
        false
    }
}

/// Whether a map holds a `String` key whose text is `needle`.
pub open spec fn map_has_string_key<V>(m: Map<String, V>, needle: Seq<char>) -> bool {
    exists|k: String| #[trigger] m.dom().contains(k) && k@ == needle
}

/// Whether a map holds a `&str` key whose text is `needle`.
pub open spec fn map_has_str_key<'a, V>(m: Map<&'a str, V>, needle: Seq<char>) -> bool {
    exists|k: &'a str| #[trigger] m.dom().contains(k) && k@ == needle
}

/// Relies on `HashMap::keys`: yields exactly the keys held by the map, so
/// one of them reads as `needle` exactly when a key with that text is held.
#[verifier::external_body]
fn hashmap_has_string_key<V, S>(m: &HashMap<String, V, S>, needle: &str) -> (b: bool)
    ensures
        b == map_has_string_key(m@, needle@),
{
    m.keys().any(|k| k.as_str() == needle)
}

/// Relies on `HashMap::keys`: yields exactly the keys held by the map, so
/// one of them reads as `needle` exactly when a key with that text is held.
#[verifier::external_body]
fn hashmap_has_str_key<'a, V, S>(m: &HashMap<&'a str, V, S>, needle: &str) -> (b: bool)
    ensures
        b == map_has_str_key(m@, needle@),
{
    m.keys().any(|k| *k == needle)
}

impl<V, S> Contains for HashMap<String, V, S> {
    open spec fn contains_spec(&self, needle: Seq<char>) -> bool {
        map_has_string_key(self@, needle)
    }

    fn contains(&self, needle: &str) -> (b: bool)
        ensures
            b == self.contains_spec(needle@),
    {
        hashmap_has_string_key(self, needle)
    }
}

impl<'a, V, S> Contains for HashMap<&'a str, V, S> {
    open spec fn contains_spec(&self, needle: Seq<char>) -> bool {
        map_has_str_key(self@, needle)
    }

    fn contains(&self, needle: &str) -> (b: bool)
        ensures
            b == self.contains_spec(needle@),
    {
        hashmap_has_str_key(self, needle)
    }
}

/// Validates whether the value contains the needle; returns the value
/// unchanged exactly when it does.
#[must_use]
pub fn validate_contains<T: Contains>(val: T, needle: &str) -> (r: Result<T, Error>)
    ensures
        r is Ok <==> val.contains_spec(needle@),
        r matches Ok(v) ==> v == val,
{
    if val.contains(needle) {
        Ok(val)
    } else {
        Err(Error::new("value does not contain the needle"))
    }
}

} // verus!
