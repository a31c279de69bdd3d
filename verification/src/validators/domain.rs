//! Domain-name validation, backed by the IDNA domain-to-ASCII conversion.

use vstd::prelude::*;
use vstd::string::*;
use crate::text::{contains_seq, find_char, first_index_of, str_contains, utf8_len, utf8_len_upto, StrValue};
use crate::utils::Error;
use crate::validators::ip::{ipv4_ok, validate_ipv4};

verus! {

/// Whether the IDNA domain-to-ASCII algorithm, with the URL deny list,
/// accepts a domain; it depends on the text alone.
pub uninterp spec fn idna_url_ok(domain: Seq<char>) -> bool;

/// Relies on `idna::domain_to_ascii_cow` with `AsciiDenyList::URL`: converts
/// a domain to its ASCII form, also rejecting forbidden domain code points;
/// the outcome depends on the bytes alone.
#[verifier::external_body]
fn idna_check_url(domain: &str) -> (b: bool)
    ensures
        b == idna_url_ok(domain@),
{
    idna::domain_to_ascii_cow(domain.as_bytes(), idna::AsciiDenyList::URL).is_ok()
}

/// Whether one domain label is acceptable: nonempty, at most 63 bytes,
/// not starting or ending with a hyphen, and without underscores.
pub open spec fn domain_label_ok(t: Seq<char>) -> bool {
    &&& 1 <= utf8_len(t) <= 63
    &&& t.len() > 0
    &&& t[0] != '-'
    &&& t[t.len() - 1] != '-'
    &&& forall|k: int| 0 <= k < t.len() ==> (#[trigger] t[k]) != '_'
}

/// Decides [`domain_label_ok`] executably.
#[verifier::loop_isolation(false)]
fn check_one_label(t: &str) -> (b: bool)
    ensures
        b == domain_label_ok(t@),
{
    let bytes_ok = match utf8_len_upto(t, 63) {
        Some(n) => 1 <= n && n <= 63,
        None => false,
    };
    if !bytes_ok {
        return false;
    }
    let len = t.unicode_len();
    if len == 0 {
        return false;
    }
    if t.get_char(0) == '-' || t.get_char(len - 1) == '-' {
        return false;
    }
    let mut k: usize = 0;
    while k < len
        invariant
            0 <= k <= len,
            len == t@.len(),
            forall|j: int| 0 <= j < k ==> (#[trigger] t@[j]) != '_',
        decreases len - k,
    {
        if t.get_char(k) == '_' {
            return false;
        }
        k += 1;
    }
    true
}

/// Whether every dot-separated label of a domain is acceptable.
pub open spec fn labels_within(s: Seq<char>) -> bool
    decreases s.len(),
{
    let i = first_index_of(s, '.');
    if 0 <= i < s.len() {
        domain_label_ok(s.subrange(0, i)) && labels_within(s.subrange(i + 1, s.len() as int))
    } else {
        domain_label_ok(s)
    }
}

/// Decides [`labels_within`] executably.
fn check_labels(s: &str) -> (b: bool)
    ensures
        b == labels_within(s@),
    decreases s@.len(),
{
    let len = s.unicode_len();
    match find_char(s, '.') {
        None => check_one_label(s),
        Some(i) => {
            let head = s.substring_char(0, i);
            if !check_one_label(head) {
                return false;
            }
            let tail = s.substring_char(i + 1, len);
            proof {
                assert(tail@.len() < s@.len());
            }
            check_labels(tail)
        },
    }
}

/// Whether a domain passes [`validate_domain`]: at most 253 bytes in all
/// and 63 bytes per label, nonempty, no two consecutive dots, not an IP
/// address, and accepted by the IDNA conversion.
pub open spec fn domain_ok(s: Seq<char>) -> bool {
    &&& utf8_len(s) <= 253
    &&& s.len() > 0
    &&& !contains_seq(s, ".."@)
    &&& labels_within(s)
    &&& !ipv4_ok(s)
    &&& idna_url_ok(s)
}

/// Checks that the given value is a valid domain name.  IP addresses are not
/// domains; use the IP validators for those.  Returns the value unchanged
/// exactly when [`domain_ok`] holds of its text.
#[must_use]
pub fn validate_domain<T: StrValue>(domain: T) -> (r: Result<T, Error>)
    ensures
        r is Ok <==> domain_ok(domain.str_view()),
        r matches Ok(v) ==> v == domain,
{
    let text = domain.as_text();
    let Some(nbytes) = utf8_len_upto(text, 253) else {
        return Err(Error::new("domain name too long"));
    };
    if nbytes > 253 {
        return Err(Error::new("domain name too long"));
    }
    if text.unicode_len() == 0 {
        return Err(Error::new("domain name cannot be empty"));
    }
    if str_contains(text, "..") {
        return Err(Error::new("domain name cannot contain two consecutive dots"));
    }
    if !check_labels(text) {
        return Err(Error::new("a domain label is empty or too long"));
    }
    if validate_ipv4(text).is_ok() {
        return Err(Error::new("an ip address is not a domain name"));
    }
    if !idna_check_url(text) {
        return Err(Error::new("invalid domain"));
    }
    Ok(domain)
}

} // verus!
