//! Email validation following the HTML5 rule for valid e-mail addresses:
//! a restricted user part, an `@`, and a valid domain.

use vstd::prelude::*;
use vstd::string::*;
use crate::text::{first_index_of, utf8_len, utf8_len_upto, StrValue};
use crate::utils::Error;
use crate::validators::domain::{domain_ok, validate_domain};

verus! {

/// The characters the HTML5 rule allows in the user part of an address:
/// ASCII letters and digits and the punctuation set
/// `.!#$%&'*+/=?^_`{|}~-`.
pub open spec fn is_email_user_char(c: char) -> bool {
    ||| ('a' <= c && c <= 'z')
    ||| ('A' <= c && c <= 'Z')
    ||| ('0' <= c && c <= '9')
    ||| c == '.' || c == '!' || c == '#' || c == '$' || c == '%' || c == '&' || c == '\'' || c
        == '*' || c == '+' || c == '/' || c == '=' || c == '?' || c == '^' || c == '_' || c == '`'
        || c == '{' || c == '|' || c == '}' || c == '~' || c == '-'
}

fn is_email_user_char_exec(c: char) -> (b: bool)
    ensures
        b == is_email_user_char(c),
{
    ('a' <= c && c <= 'z') || ('A' <= c && c <= 'Z') || ('0' <= c && c <= '9') || c == '.' || c
        == '!' || c == '#' || c == '$' || c == '%' || c == '&' || c == '\'' || c == '*' || c == '+'
        || c == '/' || c == '=' || c == '?' || c == '^' || c == '_' || c == '`' || c == '{' || c
        == '|' || c == '}' || c == '~' || c == '-'
}

/// Whether the user part of an address is acceptable: nonempty and made of
/// [`is_email_user_char`] characters only.
pub open spec fn email_user_ok(user: Seq<char>) -> bool {
    user.len() > 0 && forall|k: int| 0 <= k < user.len() ==> is_email_user_char(#[trigger] user[k])
}

pub(crate) fn check_user_part(user: &str) -> (b: bool)
    ensures
        b == email_user_ok(user@),
{
    let len = user.unicode_len();
    if len == 0 {
        return false;
    }
    let mut i: usize = 0;
    while i < len
        invariant
            0 <= i <= len,
            len == user@.len(),
            forall|k: int| 0 <= k < i ==> is_email_user_char(#[trigger] user@[k]),
        decreases len - i,
    {
        if !is_email_user_char_exec(user.get_char(i)) {
            return false;
        }
        i += 1;
    }
    true
}

/// Whether an address passes [`validate_email`]: nonempty, an `@` splitting
/// it at the first occurrence, a user part of at most 64 bytes made of the
/// allowed characters, and a valid domain part.
pub open spec fn email_ok(s: Seq<char>) -> bool {
    let at = first_index_of(s, '@');
    &&& s.len() > 0
    &&& at >= 0
    &&& utf8_len(s.subrange(0, at)) <= 64
    &&& email_user_ok(s.subrange(0, at))
    &&& domain_ok(s.subrange(at + 1, s.len() as int))
}

/// Validates an email address: the user part is checked against the HTML5
/// character rule and the 64-byte limit of RFC 5321, the domain part with
/// [`validate_domain`].  Returns the value unchanged exactly when
/// [`email_ok`] holds of its text.
#[must_use]
pub fn validate_email<T: StrValue>(input: T) -> (r: Result<T, Error>)
    ensures
        r is Ok <==> email_ok(input.str_view()),
        r matches Ok(v) ==> v == input,
{
    let text = input.as_text();
    let len = text.unicode_len();
    if len == 0 {
        return Err(Error::new("email cannot be empty"));
    }
    let Some(at) = crate::text::find_char(text, '@') else {
        return Err(Error::new("email is missing '@'"));
    };
    let user = text.substring_char(0, at);
    let dom = text.substring_char(at + 1, len);
    let Some(user_bytes) = utf8_len_upto(user, 64) else {
        return Err(Error::new("email is too long"));
    };
    if user_bytes > 64 {
        return Err(Error::new("email is too long"));
    }
    if !check_user_part(user) {
        return Err(Error::new("email has invalid username"));
    }
    match validate_domain(dom) {
        Ok(_) => Ok(input),
        Err(e) => Err(e),
    }
}

} // verus!
