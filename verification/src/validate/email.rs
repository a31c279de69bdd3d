//! Email validation in the struct-shaped API: a restricted user part, and a
//! domain part matched against the classic label pattern, with an IDNA
//! ASCII conversion as a fallback for internationalized domains.

use vstd::prelude::*;
use vstd::string::*;
use crate::text::{find_char, first_index_of, StrValue};
use crate::utils::Error;
use crate::validators::email::{check_user_part, email_user_ok};
use crate::validators::ip::{ipv4_ok, validate_ipv4};

verus! {

/// Whether a character may appear inside a domain label.
pub open spec fn is_label_char(c: char) -> bool {
    ('a' <= c && c <= 'z') || ('A' <= c && c <= 'Z') || ('0' <= c && c <= '9') || c == '-'
}

/// Whether a character may start or end a domain label.
pub open spec fn is_label_edge_char(c: char) -> bool {
    ('a' <= c && c <= 'z') || ('A' <= c && c <= 'Z') || ('0' <= c && c <= '9')
}

/// Whether a text is one acceptable domain label: at most 63 characters,
/// letters, digits or hyphens, not starting or ending with a hyphen.
pub open spec fn label_ok(t: Seq<char>) -> bool {
    &&& 1 <= t.len() <= 63
    &&& is_label_edge_char(t[0])
    &&& is_label_edge_char(t[t.len() - 1])
    &&& forall|k: int| 0 < k < t.len() - 1 ==> is_label_char(#[trigger] t[k])
}

/// Whether a text matches the domain pattern: one or more acceptable
/// labels separated by dots.
pub open spec fn domain_part_ok(s: Seq<char>) -> bool
    decreases s.len(),
{
    let i = first_index_of(s, '.');
    if 0 <= i < s.len() {
        label_ok(s.subrange(0, i)) && domain_part_ok(s.subrange(i + 1, s.len() as int))
    } else {
        label_ok(s)
    }
}

#[verifier::loop_isolation(false)]
fn check_label(t: &str) -> (b: bool)
    ensures
        b == label_ok(t@),
{
    let len = t.unicode_len();
    if len < 1 || len > 63 {
        return false;
    }
    let c0 = t.get_char(0);
    if !(('a' <= c0 && c0 <= 'z') || ('A' <= c0 && c0 <= 'Z') || ('0' <= c0 && c0 <= '9')) {
        return false;
    }
    let cl = t.get_char(len - 1);
    if !(('a' <= cl && cl <= 'z') || ('A' <= cl && cl <= 'Z') || ('0' <= cl && cl <= '9')) {
        return false;
    }
    let mut i: usize = 1;
    while i + 1 < len
        invariant
            1 <= i <= len,
            len == t@.len(),
            forall|k: int| 0 < k < i ==> is_label_char(#[trigger] t@[k]),
        decreases len - i,
    {
        let c = t.get_char(i);
        if !(('a' <= c && c <= 'z') || ('A' <= c && c <= 'Z') || ('0' <= c && c <= '9') || c
            == '-') {
            return false;
        }
        i += 1;
    }
    true
}

/// Decides [`domain_part_ok`] executably.
fn check_domain_pattern(s: &str) -> (b: bool)
    ensures
        b == domain_part_ok(s@),
    decreases s@.len(),
{
    let len = s.unicode_len();
    match find_char(s, '.') {
        None => check_label(s),
        Some(i) => {
            let head = s.substring_char(0, i);
            if !check_label(head) {
                return false;
            }
            let tail = s.substring_char(i + 1, len);
            proof {
                assert(tail@.len() < s@.len());
            }
            check_domain_pattern(tail)
        },
    }
}

/// Whether the IDNA compatibility conversion accepts a domain; it depends
/// on the text alone.
pub uninterp spec fn idna_compat_ok(s: Seq<char>) -> bool;

/// The ASCII form the IDNA compatibility conversion gives a domain it
/// accepts; it depends on the text alone.
pub uninterp spec fn idna_compat_ascii(s: Seq<char>) -> Seq<char>;

/// Relies on `idna::domain_to_ascii`: converts a domain to its ASCII form
/// with no deny list; the outcome depends on the text alone.
#[verifier::external_body]
fn domain_to_ascii_compat(s: &str) -> (r: Option<String>)
    ensures
        r is Some <==> idna_compat_ok(s@),
        r matches Some(d) ==> d@ == idna_compat_ascii(s@),
{
    match idna::domain_to_ascii(s) {
        Ok(d) => Some(d),
        Err(_) => None,
    }
}

/// Whether a domain part is accepted: it matches the domain pattern, and an
/// IPv4 address stands there only when IP domains are allowed.  Texts with
/// a colon never match the pattern, so only the dotted-quad family needs
/// checking.
pub open spec fn domain_part_accepts(
    s: Seq<char>,
    allow_ips: bool,
    only_top_level: bool,
) -> bool {
    &&& domain_part_ok(s)
    &&& (!only_top_level && !allow_ips ==> !ipv4_ok(s))
}

/// Validates whether the given text is a valid domain part of an email:
/// the label pattern must match; when `only_top_level` is set nothing more
/// is checked, and otherwise an IP address in the domain position is only
/// accepted when `allow_ips` is set.  Returns the value unchanged exactly
/// when accepted.
#[must_use]
pub fn validate_domain_part<T: StrValue>(domain: T, allow_ips: bool, only_top_level: bool) -> (r:
    Result<T, Error>)
    ensures
        r is Ok <==> domain_part_accepts(domain.str_view(), allow_ips, only_top_level),
        r matches Ok(v) ==> v == domain,
{
    let text = domain.as_text();
    if !check_domain_pattern(text) {
        return Err(Error::new("invalid domain part"));
    }
    if only_top_level {
        return Ok(domain);
    }
    if !allow_ips {
        if validate_ipv4(text).is_ok() {
            return Err(Error::new("an ip address is not allowed as the domain"));
        }
    }
    Ok(domain)
}

/// Whether an address passes [`validate_email`]: nonempty, split at the
/// first `@`, an acceptable user part, and a domain part accepted directly
/// or after the IDNA ASCII conversion.
pub open spec fn email_ok_with_ips(s: Seq<char>, allow_ips: bool) -> bool {
    let at = first_index_of(s, '@');
    let dom = s.subrange(at + 1, s.len() as int);
    &&& s.len() > 0
    &&& at >= 0
    &&& email_user_ok(s.subrange(0, at))
    &&& (domain_part_accepts(dom, allow_ips, false) || (idna_compat_ok(dom)
        && domain_part_accepts(idna_compat_ascii(dom), allow_ips, false)))
}

/// Validates whether the given value is an email address, with the IDNA
/// ASCII conversion as a fallback for internationalized domain parts.
/// Returns the value unchanged exactly when [`email_ok_with_ips`] holds of
/// its text.
#[must_use]
pub fn validate_email<T: StrValue>(email: T, allow_ips: bool) -> (r: Result<T, Error>)
    ensures
        r is Ok <==> email_ok_with_ips(email.str_view(), allow_ips),
        r matches Ok(v) ==> v == email,
{
    let text = email.as_text();
    let len = text.unicode_len();
    if len == 0 {
        return Err(Error::new("email cannot be empty"));
    }
    let Some(at) = find_char(text, '@') else {
        return Err(Error::new("email is missing '@'"));
    };
    let user = text.substring_char(0, at);
    let dom = text.substring_char(at + 1, len);
    if !check_user_part(user) {
        return Err(Error::new("email has invalid username"));
    }
    if validate_domain_part(dom, allow_ips, false).is_ok() {
        return Ok(email);
    }
    let Some(ascii) = domain_to_ascii_compat(dom) else {
        return Err(Error::new("email has invalid domain"));
    };
    match validate_domain_part(ascii.as_str(), allow_ips, false) {
        Ok(_) => Ok(email),
        Err(_) => Err(Error::new("email has invalid domain")),
    }
}

} // verus!
