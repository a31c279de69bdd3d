//! Verified text helpers shared by the validators and the code synthesizer:
//! whitespace trimming, substring search, decimal rendering of numbers, and
//! the trusted bridges to `str`'s case conversions.

use vstd::prelude::*;
use vstd::string::*;

verus! {

/// The Unicode `White_Space` code points, as documented for
/// `char::is_whitespace`.
pub open spec fn is_space_char(c: char) -> bool {
    let u = c as u32;
    (0x9 <= u && u <= 0xD) || u == 0x20 || u == 0x85 || u == 0xA0 || u == 0x1680 || (0x2000 <= u
        && u <= 0x200A) || u == 0x2028 || u == 0x2029 || u == 0x202F || u == 0x205F || u == 0x3000
}

/// Decides [`is_space_char`] executably.
pub fn is_space(c: char) -> (b: bool)
    ensures
        b == is_space_char(c),
{
    let u = c as u32;
    (0x9 <= u && u <= 0xD) || u == 0x20 || u == 0x85 || u == 0xA0 || u == 0x1680 || (0x2000 <= u
        && u <= 0x200A) || u == 0x2028 || u == 0x2029 || u == 0x202F || u == 0x205F || u == 0x3000
}

/// The characters remaining after removing leading whitespace.
pub open spec fn trim_start_spec(s: Seq<char>) -> Seq<char>
    decreases s.len(),
{
    if s.len() > 0 && is_space_char(s[0]) {
        trim_start_spec(s.drop_first())
    } else {
        s
    }
}

/// The characters remaining after removing trailing whitespace.
pub open spec fn trim_end_spec(s: Seq<char>) -> Seq<char>
    decreases s.len(),
{
    if s.len() > 0 && is_space_char(s[s.len() - 1]) {
        trim_end_spec(s.drop_last())
    } else {
        s
    }
}

/// The characters remaining after removing leading and trailing whitespace,
/// as `str::trim` does.
pub open spec fn trim_spec(s: Seq<char>) -> Seq<char> {
    trim_end_spec(trim_start_spec(s))
}

proof fn lemma_trim_start_prefix(s: Seq<char>, i: int)
    requires
        0 <= i <= s.len(),
        forall|k: int| 0 <= k < i ==> is_space_char(s[k]),
        i < s.len() ==> !is_space_char(s[i]),
    ensures
        trim_start_spec(s) == s.subrange(i, s.len() as int),
    decreases i,
{
    if i == 0 {
        assert(s.subrange(0, s.len() as int) =~= s);
    } else {
        let t = s.drop_first();
        assert(is_space_char(s[0]));
        assert(forall|k: int| 0 <= k < i - 1 ==> is_space_char(t[k]));
        lemma_trim_start_prefix(t, i - 1);
        assert(t.subrange(i - 1, t.len() as int) =~= s.subrange(i, s.len() as int));
    }
}

proof fn lemma_trim_end_suffix(s: Seq<char>, j: int)
    requires
        0 <= j <= s.len(),
        forall|k: int| j <= k < s.len() ==> is_space_char(s[k]),
        j > 0 ==> !is_space_char(s[j - 1]),
    ensures
        trim_end_spec(s) == s.subrange(0, j),
    decreases s.len() - j,
{
    if j == s.len() {
        assert(s.subrange(0, s.len() as int) =~= s);
    } else {
        let t = s.drop_last();
        assert(is_space_char(s[s.len() - 1]));
        assert(forall|k: int| j <= k < t.len() ==> is_space_char(t[k]));
        lemma_trim_end_suffix(t, j);
        assert(t.subrange(0, j) =~= s.subrange(0, j));
    }
}

/// Removes leading and trailing whitespace, as `str::trim` does.
pub fn trim_str(s: &str) -> (r: String)
    ensures
        r@ == trim_spec(s@),
{
    let len = s.unicode_len();
    let mut start: usize = 0;
    while start < len && is_space(s.get_char(start))
        invariant
            0 <= start <= len,
            len == s@.len(),
            forall|k: int| 0 <= k < start ==> is_space_char(s@[k]),
        decreases len - start,
    {
        start += 1;
    }
    proof {
        lemma_trim_start_prefix(s@, start as int);
    }
    let ghost mid = s@.subrange(start as int, len as int);
    let mut end: usize = len;
    while end > start && is_space(s.get_char(end - 1))
        invariant
            start <= end <= len,
            len == s@.len(),
            trim_start_spec(s@) == mid,
            mid == s@.subrange(start as int, len as int),
            forall|k: int| end <= k < len ==> is_space_char(s@[k]),
        decreases end,
    {
        end -= 1;
    }
    proof {
        assert(forall|k: int| end - start <= k < mid.len() ==> is_space_char(mid[k]));
        assert(end - start > 0 ==> !is_space_char(mid[end - start - 1]));
        lemma_trim_end_suffix(mid, end - start);
    }
    let piece = s.substring_char(start, end);
    proof {
        assert(mid.subrange(0, end - start) =~= s@.subrange(start as int, end as int));
    }
    String::from_str(piece)
}

/// Relies on `String::push`: appends one character at the end of the string.
#[verifier::external_body]
pub fn push_char(s: &mut String, c: char)
    ensures
        final(s)@ == old(s)@.push(c),
{
    s.push(c);
}

/// The decimal digit for a value below ten.
pub open spec fn digit_char(d: int) -> char {
    if d == 0 {
        '0'
    } else if d == 1 {
        '1'
    } else if d == 2 {
        '2'
    } else if d == 3 {
        '3'
    } else if d == 4 {
        '4'
    } else if d == 5 {
        '5'
    } else if d == 6 {
        '6'
    } else if d == 7 {
        '7'
    } else if d == 8 {
        '8'
    } else {
        '9'
    }
}

/// The decimal rendering of a natural number, most significant digit first.
pub open spec fn dec_str(n: nat) -> Seq<char>
    decreases n,
{
    if n < 10 {
        seq![digit_char(n as int)]
    } else {
        dec_str(n / 10).push(digit_char((n % 10) as int))
    }
}

fn digit_to_char(d: usize) -> (c: char)
    requires
        d < 10,
    ensures
        c == digit_char(d as int),
{
    if d == 0 {
        '0'
    } else if d == 1 {
        '1'
    } else if d == 2 {
        '2'
    } else if d == 3 {
        '3'
    } else if d == 4 {
        '4'
    } else if d == 5 {
        '5'
    } else if d == 6 {
        '6'
    } else if d == 7 {
        '7'
    } else if d == 8 {
        '8'
    } else {
        '9'
    }
}

/// Renders a number in decimal.
pub fn usize_to_string(n: usize) -> (r: String)
    ensures
        r@ == dec_str(n as nat),
{
    let mut digits: Vec<char> = Vec::new();
    let mut rest: usize = n;
    proof {
        assert(dec_str(n as nat) =~= dec_str(n as nat) + digits@.reverse());
    }
    while rest >= 10
        invariant
            dec_str(n as nat) == dec_str(rest as nat) + digits@.reverse(),
        decreases rest,
    {
        let d = digit_to_char(rest % 10);
        let ghost before = digits@;
        digits.push(d);
        proof {
            assert(digits@.reverse() =~= seq![d] + before.reverse());
            assert(dec_str(rest as nat) =~= dec_str((rest / 10) as nat) + seq![d]);
            assert((dec_str((rest / 10) as nat) + seq![d]) + before.reverse() =~= dec_str(
                (rest / 10) as nat,
            ) + (seq![d] + before.reverse()));
        }
        rest = rest / 10;
    }
    let d = digit_to_char(rest);
    let ghost before = digits@;
    digits.push(d);
    proof {
        assert(digits@.reverse() =~= seq![d] + before.reverse());
        assert(dec_str(rest as nat) =~= seq![d]);
        assert(dec_str(n as nat) =~= digits@.reverse());
    }
    let ghost target = digits@.reverse();
    let mut r = String::new();
    let mut i: usize = digits.len();
    proof {
        assert(r@ =~= target.subrange(0, 0));
    }
    while i > 0
        invariant
            0 <= i <= digits@.len(),
            target == digits@.reverse(),
            dec_str(n as nat) == target,
            r@ == target.subrange(0, digits@.len() - i),
        decreases i,
    {
        i -= 1;
        let ghost r_before = r@;
        push_char(&mut r, digits[i]);
        proof {
            assert(target[digits@.len() - 1 - i] == digits@[i as int]);
            assert(target.subrange(0, digits@.len() - i) =~= r_before.push(digits@[i as int]));
        }
    }
    proof {
        assert(target.subrange(0, digits@.len() as int) =~= target);
    }
    r
}

/// Renders an unsigned 64-bit number in decimal.
pub fn u64_to_string(n: u64) -> (r: String)
    ensures
        r@ == dec_str(n as nat),
{
    let mut digits: Vec<char> = Vec::new();
    let mut rest: u64 = n;
    proof {
        assert(dec_str(n as nat) =~= dec_str(n as nat) + digits@.reverse());
    }
    while rest >= 10
        invariant
            dec_str(n as nat) == dec_str(rest as nat) + digits@.reverse(),
        decreases rest,
    {
        let d = digit_to_char((rest % 10) as usize);
        let ghost before = digits@;
        digits.push(d);
        proof {
            assert(digits@.reverse() =~= seq![d] + before.reverse());
            assert(dec_str(rest as nat) =~= dec_str((rest / 10) as nat) + seq![d]);
            assert((dec_str((rest / 10) as nat) + seq![d]) + before.reverse() =~= dec_str(
                (rest / 10) as nat,
            ) + (seq![d] + before.reverse()));
        }
        rest = rest / 10;
    }
    let d = digit_to_char((rest % 10) as usize);
    let ghost before = digits@;
    digits.push(d);
    proof {
        assert(digits@.reverse() =~= seq![d] + before.reverse());
        assert(dec_str(rest as nat) =~= seq![d]);
        assert(dec_str(n as nat) =~= digits@.reverse());
    }
    let ghost target = digits@.reverse();
    let mut r = String::new();
    let mut i: usize = digits.len();
    proof {
        assert(r@ =~= target.subrange(0, 0));
    }
    while i > 0
        invariant
            0 <= i <= digits@.len(),
            target == digits@.reverse(),
            dec_str(n as nat) == target,
            r@ == target.subrange(0, digits@.len() - i),
        decreases i,
    {
        i -= 1;
        let ghost r_before = r@;
        push_char(&mut r, digits[i]);
        proof {
            assert(target[digits@.len() - 1 - i] == digits@[i as int]);
            assert(target.subrange(0, digits@.len() - i) =~= r_before.push(digits@[i as int]));
        }
    }
    proof {
        assert(target.subrange(0, digits@.len() as int) =~= target);
    }
    r
}

/// Collects the characters of a string slice into a vector.
pub fn chars_vec(s: &str) -> (r: Vec<char>)
    ensures
        r@ == s@,
{
    let len = s.unicode_len();
    let mut r: Vec<char> = Vec::new();
    let mut i: usize = 0;
    while i < len
        invariant
            0 <= i <= len,
            len == s@.len(),
            r@ == s@.subrange(0, i as int),
        decreases len - i,
    {
        let ghost before = r@;
        r.push(s.get_char(i));
        proof {
            assert(s@.subrange(0, i + 1) =~= before.push(s@[i as int]));
        }
        i += 1;
    }
    proof {
        assert(s@.subrange(0, len as int) =~= s@);
    }
    r
}

/// Compares two string slices character by character.
pub fn str_eq(a: &str, b: &str) -> (r: bool)
    ensures
        r == (a@ == b@),
{
    let alen = a.unicode_len();
    let blen = b.unicode_len();
    if alen != blen {
        return false;
    }
    let mut i: usize = 0;
    while i < alen
        invariant
            0 <= i <= alen,
            alen == a@.len(),
            alen == b@.len(),
            forall|k: int| 0 <= k < i ==> a@[k] == b@[k],
        decreases alen - i,
    {
        if a.get_char(i) != b.get_char(i) {
            return false;
        }
        i += 1;
    }
    proof {
        assert(a@ =~= b@);
    }
    true
}

/// Whether `needle` occurs as a contiguous run of characters in `hay`.
pub open spec fn contains_seq(hay: Seq<char>, needle: Seq<char>) -> bool {
    exists|i: int|
        0 <= i && i + needle.len() <= hay.len() && #[trigger] hay.subrange(i, i + needle.len())
            == needle
}

fn match_at(hay: &Vec<char>, needle: &Vec<char>, at: usize) -> (r: bool)
    requires
        at + needle@.len() <= hay@.len(),
    ensures
        r == (hay@.subrange(at as int, at + needle@.len()) == needle@),
{
    let hay_len = hay.len();
    let mut j: usize = 0;
    while j < needle.len()
        invariant
            0 <= j <= needle@.len(),
            at + needle@.len() <= hay@.len(),
            hay_len == hay@.len(),
            forall|k: int| 0 <= k < j ==> hay@[at + k] == needle@[k],
        decreases needle@.len() - j,
    {
        if hay[at + j] != needle[j] {
            proof {
                assert(hay@.subrange(at as int, at + needle@.len())[j as int] == hay@[at + j]);
            }
            return false;
        }
        j += 1;
    }
    proof {
        assert(hay@.subrange(at as int, at + needle@.len()) =~= needle@);
    }
    true
}

/// Decides [`contains_seq`] executably.
pub fn str_contains(hay: &str, needle: &str) -> (r: bool)
    ensures
        r == contains_seq(hay@, needle@),
{
    let h = chars_vec(hay);
    let n = chars_vec(needle);
    if n.len() > h.len() {
        return false;
    }
    if n.len() == 0 {
        proof {
            assert(hay@.subrange(0, 0 + needle@.len() as int) =~= needle@);
        }
        return true;
    }
    let hlen = h.len();
    let last = hlen - n.len();
    let mut i: usize = 0;
    while i <= last
        invariant
            0 <= i <= last + 1,
            last == h@.len() - n@.len(),
            hlen == h@.len(),
            0 < n@.len() <= h@.len(),
            h@ == hay@,
            n@ == needle@,
            forall|k: int| 0 <= k < i ==> #[trigger] h@.subrange(k, k + n@.len()) != n@,
        decreases last + 1 - i,
    {
        if match_at(&h, &n, i) {
            return true;
        }
        i += 1;
    }
    false
}

/// A value that can be read as text: the validators that work on strings are
/// generic over it, so that both `&str` and `String` inputs are accepted and
/// handed back unchanged.
pub trait StrValue {
    /// The characters of the value.
    spec fn str_view(&self) -> Seq<char>;

    /// Borrows the value's text.
    fn as_text(&self) -> (s: &str)
        ensures
            s@ == self.str_view(),
    ;
}

impl StrValue for &str {
    open spec fn str_view(&self) -> Seq<char> {
        self@
    }

    fn as_text(&self) -> (s: &str)
        ensures
            s@ == self.str_view(),
    {
        self
    }
}

impl StrValue for String {
    open spec fn str_view(&self) -> Seq<char> {
        self@
    }

    fn as_text(&self) -> (s: &str)
        ensures
            s@ == self.str_view(),
    {
        self.as_str()
    }
}

/// The number of bytes in the UTF-8 encoding of a character.
pub open spec fn utf8_size(c: char) -> nat {
    let u = c as u32;
    if u < 0x80 {
        1
    } else if u < 0x800 {
        2
    } else if u < 0x10000 {
        3
    } else {
        4
    }
}

/// The number of bytes in the UTF-8 encoding of a string, which is what
/// `str::len` counts.
pub open spec fn utf8_len(s: Seq<char>) -> nat
    decreases s.len(),
{
    if s.len() == 0 {
        0
    } else {
        utf8_size(s[0]) + utf8_len(s.drop_first())
    }
}

proof fn lemma_utf8_len_push(s: Seq<char>, c: char)
    ensures
        utf8_len(s.push(c)) == utf8_len(s) + utf8_size(c),
    decreases s.len(),
{
    if s.len() == 0 {
        assert(s.push(c).drop_first() =~= s);
    } else {
        assert(s.push(c).drop_first() =~= s.drop_first().push(c));
        lemma_utf8_len_push(s.drop_first(), c);
    }
}

fn utf8_size_exec(c: char) -> (n: usize)
    ensures
        n as nat == utf8_size(c),
{
    let u = c as u32;
    if u < 0x80 {
        1
    } else if u < 0x800 {
        2
    } else if u < 0x10000 {
        3
    } else {
        4
    }
}

/// Computes the UTF-8 byte length of a string no longer than `cap`
/// characters; longer strings give `None` (their byte length exceeds `cap`
/// anyway, a character taking at least one byte).
pub fn utf8_len_upto(s: &str, cap: usize) -> (r: Option<usize>)
    requires
        4 * cap + 4 <= usize::MAX,
    ensures
        r matches Some(n) ==> n as nat == utf8_len(s@),
        r is None ==> utf8_len(s@) > cap,
{
    let len = s.unicode_len();
    if len > cap {
        proof {
            lemma_utf8_char_min(s@);
        }
        return None;
    }
    let mut i: usize = 0;
    let mut total: usize = 0;
    while i < len
        invariant
            0 <= i <= len,
            len == s@.len(),
            len <= cap,
            4 * cap + 4 <= usize::MAX,
            total as nat == utf8_len(s@.subrange(0, i as int)),
            total <= 4 * i,
        decreases len - i,
    {
        let c = s.get_char(i);
        proof {
            assert(s@.subrange(0, i + 1) =~= s@.subrange(0, i as int).push(s@[i as int]));
            lemma_utf8_len_push(s@.subrange(0, i as int), s@[i as int]);
        }
        total += utf8_size_exec(c);
        i += 1;
    }
    proof {
        assert(s@.subrange(0, len as int) =~= s@);
    }
    Some(total)
}

proof fn lemma_utf8_char_min(s: Seq<char>)
    ensures
        utf8_len(s) >= s.len(),
    decreases s.len(),
{
    if s.len() > 0 {
        lemma_utf8_char_min(s.drop_first());
    }
}

/// The index of the first occurrence of a character, or `-1` when absent.
pub open spec fn first_index_of(s: Seq<char>, c: char) -> int
    decreases s.len(),
{
    if s.len() == 0 {
        -1
    } else if s[0] == c {
        0
    } else {
        let r = first_index_of(s.drop_first(), c);
        if r < 0 {
            -1
        } else {
            r + 1
        }
    }
}

proof fn lemma_first_index_of(s: Seq<char>, c: char, i: int)
    requires
        0 <= i <= s.len(),
        forall|k: int| 0 <= k < i ==> s[k] != c,
        i < s.len() ==> s[i] == c,
    ensures
        i < s.len() ==> first_index_of(s, c) == i,
        i == s.len() ==> first_index_of(s, c) == -1,
    decreases i,
{
    if s.len() == 0 {
    } else if i == 0 {
    } else {
        let t = s.drop_first();
        assert(forall|k: int| 0 <= k < i - 1 ==> t[k] != c);
        lemma_first_index_of(t, c, i - 1);
    }
}

/// Finds the first occurrence of a character.
pub fn find_char(s: &str, c: char) -> (r: Option<usize>)
    ensures
        r matches Some(i) ==> first_index_of(s@, c) == i && i < s@.len() && s@[i as int] == c,
        r is None ==> first_index_of(s@, c) == -1,
{
    let len = s.unicode_len();
    let mut i: usize = 0;
    while i < len
        invariant
            0 <= i <= len,
            len == s@.len(),
            forall|k: int| 0 <= k < i ==> s@[k] != c,
        decreases len - i,
    {
        if s.get_char(i) == c {
            proof {
                lemma_first_index_of(s@, c, i as int);
            }
            return Some(i);
        }
        i += 1;
    }
    proof {
        lemma_first_index_of(s@, c, len as int);
    }
    None
}

/// The lowercase form that `str::to_lowercase` gives a string; it depends on
/// the characters alone.
pub uninterp spec fn lower_of(s: Seq<char>) -> Seq<char>;

/// The uppercase form that `str::to_uppercase` gives a string; it depends on
/// the characters alone.
pub uninterp spec fn upper_of(s: Seq<char>) -> Seq<char>;

/// Relies on `str::to_lowercase`: the result depends on the characters alone,
/// and an empty string stays empty.
#[verifier::external_body]
pub fn lowercase_str(s: &str) -> (r: String)
    ensures
        r@ == lower_of(s@),
        s@.len() == 0 ==> r@.len() == 0,
{
    s.to_lowercase()
}

/// Relies on `str::to_uppercase`: the result depends on the characters alone,
/// and an empty string stays empty.
#[verifier::external_body]
pub fn uppercase_str(s: &str) -> (r: String)
    ensures
        r@ == upper_of(s@),
        s@.len() == 0 ==> r@.len() == 0,
{
    s.to_uppercase()
}

} // verus!
