//! IP address validation: verified parsers for both address families, in
//! the exact grammar the standard library's address parser accepts.  A
//! dotted quad is four decimal octets, each at most 255, with no leading
//! zeros; an IPv6 text is up to eight hexadecimal groups with at most one
//! double-colon compression and an optional embedded dotted quad in last
//! position.

use vstd::prelude::*;
use vstd::string::*;
use crate::text::{chars_vec, StrValue};
use crate::utils::Error;

verus! {

/// An IPv4 address as four octets.
#[derive(Debug, Clone, Copy, PartialEq, Eq, Structural)]
pub struct Ipv4Address {
    pub a: u8,
    pub b: u8,
    pub c: u8,
    pub d: u8,
}

/// Whether a character is an ASCII decimal digit.
pub open spec fn is_dec_digit(c: char) -> bool {
    '0' <= c && c <= '9'
}

/// The numeric value of a run of decimal digits.
pub open spec fn dec_val(s: Seq<char>) -> int
    decreases s.len(),
{
    if s.len() == 0 {
        0
    } else {
        dec_val(s.drop_last()) * 10 + (s[s.len() - 1] as int - '0' as int)
    }
}

/// Whether a text is a valid octet: one to three decimal digits, value at
/// most 255, and no leading zero unless the octet is exactly `0`.
pub open spec fn octet_ok(s: Seq<char>) -> bool {
    &&& 1 <= s.len() <= 3
    &&& (forall|k: int| 0 <= k < s.len() ==> is_dec_digit(#[trigger] s[k]))
    &&& 0 <= dec_val(s) <= 255
    &&& (s.len() > 1 ==> s[0] != '0')
}

/// Whether a text is a valid dotted-quad IPv4 address with the given octet
/// values.
pub open spec fn ipv4_parsed(s: Seq<char>, a: u8, b: u8, c: u8, d: u8) -> bool {
    exists|i: int, j: int, k: int|
        {
            &&& 0 < i < j < k < s.len()
            &&& (#[trigger] s[i]) == '.' && (#[trigger] s[j]) == '.' && (#[trigger] s[k]) == '.'
            &&& octet_ok(s.subrange(0, i))
            &&& octet_ok(s.subrange(i + 1, j))
            &&& octet_ok(s.subrange(j + 1, k))
            &&& octet_ok(s.subrange(k + 1, s.len() as int))
            &&& dec_val(s.subrange(0, i)) == a
            &&& dec_val(s.subrange(i + 1, j)) == b
            &&& dec_val(s.subrange(j + 1, k)) == c
            &&& dec_val(s.subrange(k + 1, s.len() as int)) == d
        }
}

/// Whether a text is a valid dotted-quad IPv4 address.
pub open spec fn ipv4_ok(s: Seq<char>) -> bool {
    exists|a: u8, b: u8, c: u8, d: u8| ipv4_parsed(s, a, b, c, d)
}

/// The dot-position bookkeeping the parser maintains: `dots` lists, in
/// increasing order, exactly the positions of `.` in the text.
spec fn dots_exact(sv: Seq<char>, dots: Seq<usize>) -> bool {
    &&& forall|k: int|
        0 <= k < dots.len() ==> 0 <= #[trigger] dots[k] < sv.len() && sv[dots[k] as int] == '.'
    &&& forall|p: int| 0 <= p < sv.len() && #[trigger] sv[p] == '.' ==> exists|k: int|
        0 <= k < dots.len() && #[trigger] dots[k] == p
    &&& forall|k1: int, k2: int|
        0 <= k1 < k2 < dots.len() ==> #[trigger] dots[k1] < #[trigger] dots[k2]
}

/// In a valid address, every dot lies at one of the witness positions: the
/// four octet ranges hold digits only.
proof fn lemma_dot_is_separator(sv: Seq<char>, i: int, j: int, k: int, p: int)
    requires
        0 < i < j < k < sv.len(),
        octet_ok(sv.subrange(0, i)),
        octet_ok(sv.subrange(i + 1, j)),
        octet_ok(sv.subrange(j + 1, k)),
        octet_ok(sv.subrange(k + 1, sv.len() as int)),
        0 <= p < sv.len(),
        sv[p] == '.',
    ensures
        p == i || p == j || p == k,
{
    if p < i {
        assert(sv.subrange(0, i)[p] == sv[p]);
        assert(is_dec_digit(sv.subrange(0, i)[p]));
    } else if i < p < j {
        assert(sv.subrange(i + 1, j)[p - (i + 1)] == sv[p]);
        assert(is_dec_digit(sv.subrange(i + 1, j)[p - (i + 1)]));
    } else if j < p < k {
        assert(sv.subrange(j + 1, k)[p - (j + 1)] == sv[p]);
        assert(is_dec_digit(sv.subrange(j + 1, k)[p - (j + 1)]));
    } else if k < p {
        assert(sv.subrange(k + 1, sv.len() as int)[p - (k + 1)] == sv[p]);
        assert(is_dec_digit(sv.subrange(k + 1, sv.len() as int)[p - (k + 1)]));
    }
}

/// If the text is a valid address and `dots` lists its dots exactly, then
/// there are exactly three dots and the four segments they delimit are valid
/// octets.
proof fn lemma_ipv4_witness(sv: Seq<char>, dots: Seq<usize>)
    requires
        dots_exact(sv, dots),
        ipv4_ok(sv),
    ensures
        dots.len() == 3,
        0 < dots[0] < dots[1] < dots[2] < sv.len(),
        octet_ok(sv.subrange(0, dots[0] as int)),
        octet_ok(sv.subrange(dots[0] as int + 1, dots[1] as int)),
        octet_ok(sv.subrange(dots[1] as int + 1, dots[2] as int)),
        octet_ok(sv.subrange(dots[2] as int + 1, sv.len() as int)),
{
    let (a, b, c, d) = choose|a: u8, b: u8, c: u8, d: u8| ipv4_parsed(sv, a, b, c, d);
    let (i, j, k) = choose|i: int, j: int, k: int|
        {
            &&& 0 < i < j < k < sv.len()
            &&& (#[trigger] sv[i]) == '.' && (#[trigger] sv[j]) == '.' && (#[trigger] sv[k]) == '.'
            &&& octet_ok(sv.subrange(0, i))
            &&& octet_ok(sv.subrange(i + 1, j))
            &&& octet_ok(sv.subrange(j + 1, k))
            &&& octet_ok(sv.subrange(k + 1, sv.len() as int))
            &&& dec_val(sv.subrange(0, i)) == a
            &&& dec_val(sv.subrange(i + 1, j)) == b
            &&& dec_val(sv.subrange(j + 1, k)) == c
            &&& dec_val(sv.subrange(k + 1, sv.len() as int)) == d
        };
    assert forall|m: int| 0 <= m < dots.len() implies dots[m] == i || dots[m] == j || dots[m]
        == k by {
        lemma_dot_is_separator(sv, i, j, k, dots[m] as int);
    }
    let ki = choose|m: int| 0 <= m < dots.len() && #[trigger] dots[m] == i;
    let kj = choose|m: int| 0 <= m < dots.len() && #[trigger] dots[m] == j;
    let kk = choose|m: int| 0 <= m < dots.len() && #[trigger] dots[m] == k;
    assert(ki != kj && kj != kk && ki != kk);
    assert(dots.len() >= 3);
    if dots.len() > 3 {
        assert(dots[0] < dots[1] < dots[2] < dots[3]);
        assert(false);
    }
    assert(dots[0] < dots[1] < dots[2]);
    assert(dots[0] == i && dots[1] == j && dots[2] == k);
}

/// Checks one octet's text between two positions and returns its value.
#[verifier::loop_isolation(false)]
fn parse_octet(s: &Vec<char>, from: usize, to: usize) -> (r: Option<u8>)
    requires
        0 <= from <= to <= s@.len(),
    ensures
        r matches Some(n) ==> octet_ok(s@.subrange(from as int, to as int)) && n == dec_val(
            s@.subrange(from as int, to as int),
        ),
        r is None ==> !octet_ok(s@.subrange(from as int, to as int)),
{
    let ghost t = s@.subrange(from as int, to as int);
    let len = to - from;
    if len < 1 || len > 3 {
        return None;
    }
    let mut value: usize = 0;
    let mut i: usize = 0;
    while i < len
        invariant
            0 <= i <= len,
            len == t.len(),
            1 <= len <= 3,
            from + len <= s@.len(),
            t == s@.subrange(from as int, to as int),
            forall|k: int| 0 <= k < i ==> is_dec_digit(#[trigger] t[k]),
            value == dec_val(t.subrange(0, i as int)),
            0 <= value <= 255,
        decreases len - i,
    {
        let c = s[from + i];
        proof {
            assert(t[i as int] == s@[from + i]);
        }
        if !('0' <= c && c <= '9') {
            return None;
        }
        let digit = (c as u32 as usize) - ('0' as u32 as usize);
        proof {
            assert(t.subrange(0, i + 1).drop_last() =~= t.subrange(0, i as int));
            assert(t.subrange(0, i + 1)[i as int] == t[i as int]);
        }
        value = value * 10 + digit;
        i += 1;
        if value > 255 {
            proof {
                if octet_ok(t) {
                    lemma_dec_val_grows(t, i as int);
                }
            }
            return None;
        }
    }
    proof {
        assert(t.subrange(0, len as int) =~= t);
    }
    if len > 1 && s[from] == '0' {
        proof {
            assert(t[0] == s@[from as int]);
        }
        return None;
    }
    proof {
        assert(t[0] == s@[from as int]);
    }
    Some(value as u8)
}

/// Once a digit prefix exceeds 255, the whole digit run does: appending
/// digits never shrinks the value.
proof fn lemma_dec_val_grows(t: Seq<char>, i: int)
    requires
        0 <= i <= t.len(),
        forall|k: int| 0 <= k < t.len() ==> is_dec_digit(#[trigger] t[k]),
        dec_val(t.subrange(0, i)) > 255,
    ensures
        dec_val(t) > 255,
    decreases t.len() - i,
{
    if i == t.len() {
        assert(t.subrange(0, i) =~= t);
    } else {
        assert(t.subrange(0, i + 1).drop_last() =~= t.subrange(0, i));
        assert(t.subrange(0, i + 1)[i] == t[i]);
        assert(is_dec_digit(t[i]));
        assert(dec_val(t.subrange(0, i + 1)) > 255);
        lemma_dec_val_grows(t, i + 1);
    }
}

/// Checks that the given value is a valid dotted-quad IPv4 address, and
/// returns the parsed address.  Succeeds exactly when [`ipv4_ok`] holds of
/// the value's text.
#[must_use]
#[verifier::loop_isolation(false)]
pub fn validate_ipv4<T: StrValue>(input: T) -> (r: Result<Ipv4Address, Error>)
    ensures
        r is Ok <==> ipv4_ok(input.str_view()),
        r matches Ok(ip) ==> ipv4_parsed(input.str_view(), ip.a, ip.b, ip.c, ip.d),
{
    let text = input.as_text();
    let s = chars_vec(text);
    let ghost sv = s@;
    let mut dots: Vec<usize> = Vec::new();
    let mut i: usize = 0;
    while i < s.len()
        invariant
            0 <= i <= sv.len(),
            sv == s@,
            forall|k: int|
                0 <= k < dots@.len() ==> 0 <= #[trigger] dots@[k] < i && sv[dots@[k] as int]
                    == '.',
            forall|p: int| 0 <= p < i && #[trigger] sv[p] == '.' ==> exists|k: int|
                0 <= k < dots@.len() && #[trigger] dots@[k] == p,
            forall|k1: int, k2: int|
                0 <= k1 < k2 < dots@.len() ==> #[trigger] dots@[k1] < #[trigger] dots@[k2],
        decreases sv.len() - i,
    {
        if s[i] == '.' {
            let ghost dots_before = dots@;
            dots.push(i);
            proof {
                assert forall|p: int| 0 <= p < i + 1 && #[trigger] sv[p] == '.' implies exists|
                    k: int,
                |
                    0 <= k < dots@.len() && #[trigger] dots@[k] == p by {
                    if p < i {
                        let k = choose|k: int|
                            0 <= k < dots_before.len() && #[trigger] dots_before[k] == p;
                        assert(dots@[k] == p);
                    } else {
                        assert(dots@[dots@.len() - 1] == p);
                    }
                }
            }
        }
        i += 1;
    }
    proof {
        assert(dots_exact(sv, dots@));
    }
    if dots.len() != 3 {
        proof {
            if ipv4_ok(sv) {
                lemma_ipv4_witness(sv, dots@);
            }
        }
        return Err(Error::new("invalid ipv4 address"));
    }
    let i1 = dots[0];
    let i2 = dots[1];
    let i3 = dots[2];
    proof {
        assert(dots@[0] < dots@[1] < dots@[2]);
    }
    let Some(a) = parse_octet(&s, 0, i1) else {
        proof {
            if ipv4_ok(sv) {
                lemma_ipv4_witness(sv, dots@);
            }
        }
        return Err(Error::new("invalid ipv4 address"));
    };
    let Some(b) = parse_octet(&s, i1 + 1, i2) else {
        proof {
            if ipv4_ok(sv) {
                lemma_ipv4_witness(sv, dots@);
            }
        }
        return Err(Error::new("invalid ipv4 address"));
    };
    let Some(c) = parse_octet(&s, i2 + 1, i3) else {
        proof {
            if ipv4_ok(sv) {
                lemma_ipv4_witness(sv, dots@);
            }
        }
        return Err(Error::new("invalid ipv4 address"));
    };
    let Some(d) = parse_octet(&s, i3 + 1, s.len()) else {
        proof {
            if ipv4_ok(sv) {
                lemma_ipv4_witness(sv, dots@);
            }
        }
        return Err(Error::new("invalid ipv4 address"));
    };
    proof {
        let ii = dots@[0] as int;
        let jj = dots@[1] as int;
        let kk = dots@[2] as int;
        assert(sv[ii] == '.' && sv[jj] == '.' && sv[kk] == '.');
        assert(0 < ii);
        assert(ipv4_parsed(sv, a, b, c, d));
    }
    Ok(Ipv4Address { a, b, c, d })
}

// ---------------------------------------------------------------------------
// IPv6
// ---------------------------------------------------------------------------
/// An IPv6 address as eight 16-bit groups.
#[derive(Debug, Clone, Copy, PartialEq, Eq, Structural)]
pub struct Ipv6Address {
    pub g0: u16,
    pub g1: u16,
    pub g2: u16,
    pub g3: u16,
    pub g4: u16,
    pub g5: u16,
    pub g6: u16,
    pub g7: u16,
}

/// Whether a character is an ASCII hexadecimal digit.
pub open spec fn is_hex_digit(c: char) -> bool {
    ('0' <= c && c <= '9') || ('a' <= c && c <= 'f') || ('A' <= c && c <= 'F')
}

/// The numeric value of a hexadecimal digit.
pub open spec fn hex_digit_val(c: char) -> int {
    if '0' <= c && c <= '9' {
        c as int - '0' as int
    } else if 'a' <= c && c <= 'f' {
        c as int - 'a' as int + 10
    } else {
        c as int - 'A' as int + 10
    }
}

/// The number of hexadecimal digits starting at a position.
pub open spec fn hex_run_len(s: Seq<char>, i: int) -> int
    decreases s.len() - i when 0 <= i <= s.len()
{
    if 0 <= i < s.len() && is_hex_digit(s[i]) {
        1 + hex_run_len(s, i + 1)
    } else {
        0
    }
}

/// The value of `r` hexadecimal digits starting at a position.
pub open spec fn hex_val_at(s: Seq<char>, i: int, r: int) -> int
    decreases r,
{
    if r <= 0 {
        0
    } else {
        hex_val_at(s, i, r - 1) * 16 + hex_digit_val(s[i + r - 1])
    }
}

/// One group of one to four hexadecimal digits, greedily: a longer digit
/// run is an error, not a shorter group.
pub open spec fn parse_hex_group(s: Seq<char>, i: int) -> Option<(u16, int)> {
    let r = hex_run_len(s, i);
    if 1 <= r <= 4 {
        Some(((hex_val_at(s, i, r) as u16), i + r))
    } else {
        None
    }
}

/// The number of decimal digits starting at a position.
pub open spec fn dec_run_len(s: Seq<char>, i: int) -> int
    decreases s.len() - i when 0 <= i <= s.len()
{
    if 0 <= i < s.len() && is_dec_digit(s[i]) {
        1 + dec_run_len(s, i + 1)
    } else {
        0
    }
}

/// One octet at a position: one to three decimal digits, at most 255, no
/// leading zero.
pub open spec fn parse_octet_at(s: Seq<char>, i: int) -> Option<(u8, int)> {
    let r = dec_run_len(s, i);
    if 1 <= r <= 3 && dec_val(s.subrange(i, i + r)) <= 255 && (r > 1 ==> s[i] != '0') {
        Some(((dec_val(s.subrange(i, i + r)) as u8), i + r))
    } else {
        None
    }
}

/// A dotted-quad IPv4 address at a position.
pub open spec fn parse_ipv4_at(s: Seq<char>, i: int) -> Option<((u8, u8, u8, u8), int)> {
    match parse_octet_at(s, i) {
        None => None,
        Some((a, j1)) => if j1 < s.len() && s[j1] == '.' {
            match parse_octet_at(s, j1 + 1) {
                None => None,
                Some((b, j2)) => if j2 < s.len() && s[j2] == '.' {
                    match parse_octet_at(s, j2 + 1) {
                        None => None,
                        Some((c, j3)) => if j3 < s.len() && s[j3] == '.' {
                            match parse_octet_at(s, j3 + 1) {
                                None => None,
                                Some((d, j4)) => Some(((a, b, c, d), j4)),
                            }
                        } else {
                            None
                        },
                    }
                } else {
                    None
                },
            }
        } else {
            None
        },
    }
}

/// The group value an embedded IPv4 pair contributes.
pub open spec fn v4_group(hi: u8, lo: u8) -> u16 {
    ((hi as int) * 256 + (lo as int)) as u16
}

/// As many colon-separated groups as fit in the given slots, greedily, the
/// way the standard library's address parser reads them: a trailing
/// embedded IPv4 address takes the last two slots, and a failed item backs
/// off without consuming its separator.  Yields the groups, the next
/// position, and whether an embedded IPv4 address ended the run.
pub open spec fn parse_groups(s: Seq<char>, i: int, need_colon: bool, slots: int) -> (
    Seq<u16>,
    int,
    bool,
)
    decreases slots,
{
    if slots <= 0 {
        (Seq::empty(), i, false)
    } else {
        let j = if need_colon {
            if 0 <= i < s.len() && s[i] == ':' {
                i + 1
            } else {
                -1
            }
        } else {
            i
        };
        if j < 0 {
            (Seq::empty(), i, false)
        } else if slots >= 2 && parse_ipv4_at(s, j) is Some {
            let ((a, b, c, d), k) = parse_ipv4_at(s, j)->Some_0;
            (seq![v4_group(a, b), v4_group(c, d)], k, true)
        } else {
            match parse_hex_group(s, j) {
                Some((v, k)) => {
                    let (rest, m, f) = parse_groups(s, k, true, slots - 1);
                    (seq![v] + rest, m, f)
                },
                None => (Seq::empty(), i, false),
            }
        }
    }
}

/// The eight groups of an IPv6 text, or `None` when the text is not one:
/// up to eight head groups; a full head must end the text, and a shorter
/// head must continue with a double colon and fit its tail in the slots
/// the compression leaves, with an embedded IPv4 address only in last
/// position.
pub open spec fn ipv6_groups(s: Seq<char>) -> Option<Seq<u16>> {
    let (head, i, used4) = parse_groups(s, 0, false, 8);
    if head.len() == 8 {
        if i == s.len() {
            Some(head)
        } else {
            None
        }
    } else if used4 {
        None
    } else if 0 <= i && i + 1 < s.len() && s[i] == ':' && s[i + 1] == ':' {
        let (tail, j, _) = parse_groups(s, i + 2, false, 7 - head.len());
        if j == s.len() {
            Some(head + Seq::new((8 - head.len() - tail.len()) as nat, |k: int| 0u16) + tail)
        } else {
            None
        }
    } else {
        None
    }
}

/// Whether a text is a valid IPv6 address.
pub open spec fn ipv6_ok(s: Seq<char>) -> bool {
    ipv6_groups(s) is Some
}

proof fn lemma_hex_run_nonneg(s: Seq<char>, i: int)
    requires
        0 <= i <= s.len(),
    ensures
        hex_run_len(s, i) >= 0,
    decreases s.len() - i,
{
    if i < s.len() && is_hex_digit(s[i]) {
        lemma_hex_run_nonneg(s, i + 1);
    }
}

proof fn lemma_dec_run_nonneg(s: Seq<char>, i: int)
    requires
        0 <= i <= s.len(),
    ensures
        dec_run_len(s, i) >= 0,
    decreases s.len() - i,
{
    if i < s.len() && is_dec_digit(s[i]) {
        lemma_dec_run_nonneg(s, i + 1);
    }
}

proof fn lemma_hex_run_ge(s: Seq<char>, i: int, r: int)
    requires
        0 <= i,
        i + r <= s.len(),
        0 <= r,
        forall|k: int| i <= k < i + r ==> is_hex_digit(#[trigger] s[k]),
    ensures
        hex_run_len(s, i) >= r,
    decreases r,
{
    if r > 0 {
        assert(is_hex_digit(s[i]));
        lemma_hex_run_ge(s, i + 1, r - 1);
    } else {
        lemma_hex_run_nonneg(s, i);
    }
}

proof fn lemma_hex_run_eq(s: Seq<char>, i: int, r: int)
    requires
        0 <= i,
        i + r <= s.len(),
        0 <= r,
        forall|k: int| i <= k < i + r ==> is_hex_digit(#[trigger] s[k]),
        i + r < s.len() ==> !is_hex_digit(s[i + r]),
    ensures
        hex_run_len(s, i) == r,
    decreases r,
{
    if r > 0 {
        assert(is_hex_digit(s[i]));
        lemma_hex_run_eq(s, i + 1, r - 1);
    }
}

proof fn lemma_dec_run_ge(s: Seq<char>, i: int, r: int)
    requires
        0 <= i,
        i + r <= s.len(),
        0 <= r,
        forall|k: int| i <= k < i + r ==> is_dec_digit(#[trigger] s[k]),
    ensures
        dec_run_len(s, i) >= r,
    decreases r,
{
    if r > 0 {
        assert(is_dec_digit(s[i]));
        lemma_dec_run_ge(s, i + 1, r - 1);
    } else {
        lemma_dec_run_nonneg(s, i);
    }
}

proof fn lemma_dec_run_eq(s: Seq<char>, i: int, r: int)
    requires
        0 <= i,
        i + r <= s.len(),
        0 <= r,
        forall|k: int| i <= k < i + r ==> is_dec_digit(#[trigger] s[k]),
        i + r < s.len() ==> !is_dec_digit(s[i + r]),
    ensures
        dec_run_len(s, i) == r,
    decreases r,
{
    if r > 0 {
        assert(is_dec_digit(s[i]));
        lemma_dec_run_eq(s, i + 1, r - 1);
    }
}

/// The sixteens powers up to four digits.
proof fn lemma_hex_val_bound(s: Seq<char>, i: int, r: int)
    requires
        0 <= r <= 4,
        forall|k: int| i <= k < i + r ==> is_hex_digit(#[trigger] s[k]),
    ensures
        0 <= hex_val_at(s, i, r) < 65536,
    decreases r,
{
    if r > 0 {
        lemma_hex_val_bound(s, i, r - 1);
        assert(hex_val_at(s, i, r - 1) * 16 <= (hex_val_at(s, i, r - 1)) * 16);
        assert(hex_val_at(s, i, r - 1) <= 4095) by {
            if r == 4 {
                lemma_hex_val_small(s, i, 3);
            } else {
                lemma_hex_val_small(s, i, r - 1);
            }
        }
        assert(hex_digit_val(s[i + r - 1]) <= 15);
    }
}

proof fn lemma_hex_val_small(s: Seq<char>, i: int, r: int)
    requires
        0 <= r <= 3,
        forall|k: int| i <= k < i + r ==> is_hex_digit(#[trigger] s[k]),
    ensures
        0 <= hex_val_at(s, i, r) <= 4095,
    decreases r,
{
    if r > 0 {
        lemma_hex_val_small(s, i, r - 1);
        assert(hex_val_at(s, i, r - 1) <= 255) by {
            lemma_hex_val_tiny(s, i, r - 1);
        }
        assert(hex_digit_val(s[i + r - 1]) <= 15);
    }
}

proof fn lemma_hex_val_tiny(s: Seq<char>, i: int, r: int)
    requires
        0 <= r,
        forall|k: int| i <= k < i + r ==> is_hex_digit(#[trigger] s[k]),
    ensures
        r <= 2 ==> 0 <= hex_val_at(s, i, r) <= 255,
        r <= 1 ==> 0 <= hex_val_at(s, i, r) <= 15,
        r <= 0 ==> hex_val_at(s, i, r) == 0,
    decreases r,
{
    if r > 0 {
        lemma_hex_val_tiny(s, i, r - 1);
        if r <= 2 {
            assert(hex_digit_val(s[i + r - 1]) <= 15);
        }
    }
}

fn is_hex_exec(c: char) -> (b: bool)
    ensures
        b == is_hex_digit(c),
{
    ('0' <= c && c <= '9') || ('a' <= c && c <= 'f') || ('A' <= c && c <= 'F')
}

/// Reads one hexadecimal group executably.
#[verifier::loop_isolation(false)]
fn parse_hex_group_exec(s: &Vec<char>, i: usize) -> (r: Option<(u16, usize)>)
    requires
        i <= s@.len(),
    ensures
        r matches Some(p) ==> parse_hex_group(s@, i as int) == Some((p.0, p.1 as int)) && p.1
            <= s@.len(),
        r is None ==> parse_hex_group(s@, i as int) is None,
{
    let mut j = i;
    let mut value: usize = 0;
    while j < s.len() && j - i < 5 && is_hex_exec(s[j])
        invariant
            i <= j <= s@.len(),
            j - i <= 5,
            forall|k: int| i <= k < j ==> is_hex_digit(#[trigger] s@[k]),
            j - i <= 4 ==> value == hex_val_at(s@, i as int, j - i),
            value < 65536,
        decreases s@.len() - j,
    {
        if j - i < 4 {
            let c = s[j];
            let d: usize = if '0' <= c && c <= '9' {
                (c as u32 as usize) - ('0' as u32 as usize)
            } else if 'a' <= c && c <= 'f' {
                (c as u32 as usize) - ('a' as u32 as usize) + 10
            } else {
                (c as u32 as usize) - ('A' as u32 as usize) + 10
            };
            proof {
                lemma_hex_val_bound(s@, i as int, j - i + 1);
            }
            value = value * 16 + d;
        }
        j += 1;
    }
    let run = j - i;
    if run == 0 {
        proof {
            lemma_hex_run_eq(s@, i as int, 0);
        }
        return None;
    }
    if run >= 5 {
        proof {
            lemma_hex_run_ge(s@, i as int, 5);
        }
        return None;
    }
    proof {
        lemma_hex_run_eq(s@, i as int, run as int);
    }
    Some((value as u16, j))
}

proof fn lemma_dec_val_tiny(t: Seq<char>)
    requires
        forall|k: int| 0 <= k < t.len() ==> is_dec_digit(#[trigger] t[k]),
    ensures
        t.len() == 0 ==> dec_val(t) == 0,
        t.len() <= 1 ==> 0 <= dec_val(t) <= 9,
        t.len() <= 2 ==> 0 <= dec_val(t) <= 99,
        t.len() <= 3 ==> 0 <= dec_val(t) <= 999,
    decreases t.len(),
{
    if t.len() > 0 {
        assert(forall|k: int| 0 <= k < t.drop_last().len() ==> is_dec_digit(
            #[trigger] t.drop_last()[k],
        ));
        lemma_dec_val_tiny(t.drop_last());
    }
}

/// A list of parsed groups never exceeds its slots.
proof fn lemma_parse_groups_len(s: Seq<char>, i: int, need_colon: bool, slots: int)
    ensures
        parse_groups(s, i, need_colon, slots).0.len() <= (if slots >= 0 {
            slots
        } else {
            0
        }),
    decreases slots,
{
    if slots > 0 {
        let j = if need_colon {
            if 0 <= i < s.len() && s[i] == ':' {
                i + 1
            } else {
                -1
            }
        } else {
            i
        };
        if j >= 0 {
            match parse_hex_group(s, j) {
                Some((v, k)) => {
                    lemma_parse_groups_len(s, k, true, slots - 1);
                },
                None => {},
            }
        }
    }
}

/// Reads one octet executably.
#[verifier::loop_isolation(false)]
fn parse_octet_exec(s: &Vec<char>, i: usize) -> (r: Option<(u8, usize)>)
    requires
        i <= s@.len(),
    ensures
        r matches Some(p) ==> parse_octet_at(s@, i as int) == Some((p.0, p.1 as int)) && p.1
            <= s@.len(),
        r is None ==> parse_octet_at(s@, i as int) is None,
{
    let mut j = i;
    let mut value: usize = 0;
    while j < s.len() && j - i < 4 && '0' <= s[j] && s[j] <= '9'
        invariant
            i <= j <= s@.len(),
            j - i <= 4,
            forall|k: int| i <= k < j ==> is_dec_digit(#[trigger] s@[k]),
            j - i <= 3 ==> value == dec_val(s@.subrange(i as int, j as int)),
            value < 1000,
        decreases s@.len() - j,
    {
        if j - i < 3 {
            let c = s[j];
            let d = (c as u32 as usize) - ('0' as u32 as usize);
            proof {
                assert(s@.subrange(i as int, j + 1).drop_last() =~= s@.subrange(i as int, j as int));
                assert(s@.subrange(i as int, j + 1)[j - i] == s@[j as int]);
                assert(forall|k: int|
                    0 <= k < s@.subrange(i as int, j as int).len() ==> is_dec_digit(
                        #[trigger] s@.subrange(i as int, j as int)[k],
                    ));
                lemma_dec_val_tiny(s@.subrange(i as int, j as int));
            }
            value = value * 10 + d;
        }
        j += 1;
    }
    let run = j - i;
    if run == 0 {
        proof {
            lemma_dec_run_eq(s@, i as int, 0);
        }
        return None;
    }
    if run >= 4 {
        proof {
            lemma_dec_run_ge(s@, i as int, 4);
        }
        return None;
    }
    proof {
        lemma_dec_run_eq(s@, i as int, run as int);
    }
    if value > 255 {
        return None;
    }
    if run > 1 && s[i] == '0' {
        return None;
    }
    Some((value as u8, j))
}

/// Reads a dotted quad executably.
fn parse_ipv4_exec(s: &Vec<char>, i: usize) -> (r: Option<((u8, u8, u8, u8), usize)>)
    requires
        i <= s@.len(),
    ensures
        r matches Some(p) ==> parse_ipv4_at(s@, i as int) == Some((p.0, p.1 as int)) && p.1
            <= s@.len(),
        r is None ==> parse_ipv4_at(s@, i as int) is None,
{
    let Some((a, j1)) = parse_octet_exec(s, i) else { return None };
    if !(j1 < s.len() && s[j1] == '.') {
        return None;
    }
    let Some((b, j2)) = parse_octet_exec(s, j1 + 1) else { return None };
    if !(j2 < s.len() && s[j2] == '.') {
        return None;
    }
    let Some((c, j3)) = parse_octet_exec(s, j2 + 1) else { return None };
    if !(j3 < s.len() && s[j3] == '.') {
        return None;
    }
    let Some((d, j4)) = parse_octet_exec(s, j3 + 1) else { return None };
    Some(((a, b, c, d), j4))
}

/// Reads colon-separated groups executably.
fn parse_groups_exec(s: &Vec<char>, i: usize, need_colon: bool, slots: u8) -> (r: (
    Vec<u16>,
    usize,
    bool,
))
    requires
        i <= s@.len(),
    ensures
        (r.0@, r.1 as int, r.2) == parse_groups(s@, i as int, need_colon, slots as int),
        r.1 <= s@.len(),
        i <= r.1,
    decreases slots,
{
    if slots == 0 {
        return (Vec::new(), i, false);
    }
    let j = if need_colon {
        if i < s.len() && s[i] == ':' {
            i + 1
        } else {
            return (Vec::new(), i, false);
        }
    } else {
        i
    };
    if slots >= 2 {
        if let Some(((a, b, c, d), k)) = parse_ipv4_exec(s, j) {
            let mut groups: Vec<u16> = Vec::new();
            groups.push((a as u16) * 256 + (b as u16));
            groups.push((c as u16) * 256 + (d as u16));
            proof {
                assert(groups@ =~= seq![v4_group(a, b), v4_group(c, d)]);
            }
            return (groups, k, true);
        }
    }
    match parse_hex_group_exec(s, j) {
        Some((v, k)) => {
            let (rest, m, f) = parse_groups_exec(s, k, true, slots - 1);
            let mut groups: Vec<u16> = Vec::new();
            groups.push(v);
            let mut tail = rest;
            groups.append(&mut tail);
            proof {
                assert(groups@ =~= seq![v] + parse_groups(s@, k as int, true, slots - 1).0);
            }
            (groups, m, f)
        },
        None => (Vec::new(), i, false),
    }
}

/// Checks that the given value is a valid IPv6 address, and returns the
/// parsed address.  Succeeds exactly when [`ipv6_ok`] holds of the value's
/// text, in the grammar the standard library's address parser accepts.
#[must_use]
pub fn validate_ipv6<T: StrValue>(input: T) -> (r: Result<Ipv6Address, Error>)
    ensures
        r is Ok <==> ipv6_ok(input.str_view()),
        r matches Ok(ip) ==> ipv6_groups(input.str_view()) == Some(
            seq![ip.g0, ip.g1, ip.g2, ip.g3, ip.g4, ip.g5, ip.g6, ip.g7],
        ),
{
    let text = input.as_text();
    let s = chars_vec(text);
    let ghost sv = s@;
    let (head, i, used4) = parse_groups_exec(&s, 0, false, 8);
    proof {
        lemma_parse_groups_len(sv, 0, false, 8);
    }
    let n = s.len();
    let mut segs = head;
    if segs.len() == 8 {
        if i != n {
            return Err(Error::new("invalid ipv6 address"));
        }
    } else if used4 {
        return Err(Error::new("invalid ipv6 address"));
    } else if i < n && i + 1 < n && s[i] == ':' && s[i + 1] == ':' {
        proof {
            lemma_parse_groups_len(sv, i + 2, false, 7 - segs@.len());
        }
        let slots = 7 - (segs.len() as u8);
        let (tail, j, _) = parse_groups_exec(&s, i + 2, false, slots);
        if j != n {
            return Err(Error::new("invalid ipv6 address"));
        }
        let ghost head_view = segs@;
        let ghost tail_view = tail@;
        let zero_count = 8 - segs.len() - tail.len();
        let mut z: usize = 0;
        while z < zero_count
            invariant
                head_view.len() + tail_view.len() + zero_count == 8,
                0 <= z <= zero_count,
                segs@ =~= head_view + Seq::new(z as nat, |k: int| 0u16),
            decreases zero_count - z,
        {
            let ghost before = segs@;
            segs.push(0u16);
            proof {
                assert(before.push(0u16) =~= head_view + Seq::new((z + 1) as nat, |k: int| 0u16));
            }
            z += 1;
        }
        let mut tail_vec = tail;
        segs.append(&mut tail_vec);
        proof {
            assert(segs@ =~= head_view + Seq::new(
                (8 - head_view.len() - tail_view.len()) as nat,
                |k: int| 0u16,
            ) + tail_view);
            assert(ipv6_groups(sv) == Some(segs@));
        }
    } else {
        return Err(Error::new("invalid ipv6 address"));
    }
    proof {
        assert(segs@.len() == 8);
    }
    Ok(
        Ipv6Address {
            g0: segs[0],
            g1: segs[1],
            g2: segs[2],
            g3: segs[3],
            g4: segs[4],
            g5: segs[5],
            g6: segs[6],
            g7: segs[7],
        },
    )
}

/// An IP address of either family.
#[derive(Debug, Clone, Copy, PartialEq, Eq, Structural)]
pub enum IpAddress {
    V4(Ipv4Address),
    V6(Ipv6Address),
}

/// Checks that the given value is a valid IP address of either family, the
/// dotted-quad form first.
#[must_use]
pub fn validate_ip<T: StrValue>(input: T) -> (r: Result<IpAddress, Error>)
    ensures
        r is Ok <==> ipv4_ok(input.str_view()) || ipv6_ok(input.str_view()),
        r matches Ok(ip) ==> (ip is V4 ==> ipv4_ok(input.str_view())) && (ip is V6 ==> ipv6_ok(
            input.str_view(),
        )),
{
    match validate_ipv4(input.as_text()) {
        Ok(v4) => Ok(IpAddress::V4(v4)),
        Err(_) => match validate_ipv6(input.as_text()) {
            Ok(v6) => Ok(IpAddress::V6(v6)),
            Err(_) => Err(Error::new("invalid ip address")),
        },
    }
}

} // verus!
