//! Character classification and string helpers from std, with the
//! contracts the rest of the crate relies on.
use vstd::prelude::*;
use vstd::string::{StringExecFns, StringSliceAdditionalSpecFns};
use vstd::utf8::{decode_utf8, valid_utf8};

verus! {

/// Whether std's `char::is_alphabetic` holds of `c` (the Unicode
/// `Alphabetic` property).
pub uninterp spec fn char_is_alphabetic(c: char) -> bool;

/// Whether std's `char::is_numeric` holds of `c` (the Unicode general
/// categories for numbers).
pub uninterp spec fn char_is_numeric(c: char) -> bool;

/// Whether std's `char::is_whitespace` holds of `c` (the Unicode
/// `White_Space` property).
pub uninterp spec fn char_is_whitespace(c: char) -> bool;

/// An ASCII letter: `a-z` or `A-Z`.
pub open spec fn is_ascii_letter(c: char) -> bool {
    ('a' <= c && c <= 'z') || ('A' <= c && c <= 'Z')
}

/// An ASCII digit: `0-9`.
pub open spec fn is_ascii_digit(c: char) -> bool {
    '0' <= c && c <= '9'
}

/// What `char::is_alphanumeric` decides: std documents it as
/// `is_alphabetic() || is_numeric()`.
pub open spec fn char_is_alphanumeric(c: char) -> bool {
    char_is_alphabetic(c) || char_is_numeric(c)
}

/// What `char::is_alphabetic` decides of `c`: std's source answers an ASCII
/// character itself, `true` exactly for `a-z` and `A-Z`, and asks the
/// Unicode `Alphabetic` property only above `'\x7f'`.
pub open spec fn alphabetic_char(c: char) -> bool {
    if (c as u32) < 128 {
        is_ascii_letter(c)
    } else {
        char_is_alphabetic(c)
    }
}

/// What `char::is_numeric` decides of `c`: on ASCII exactly `0-9`, above
/// `'\x7f'` the Unicode categories for numbers.
pub open spec fn numeric_char(c: char) -> bool {
    if (c as u32) < 128 {
        is_ascii_digit(c)
    } else {
        char_is_numeric(c)
    }
}

/// What `char::is_whitespace` decides of `c`: on ASCII exactly the space and
/// `'\t'` to `'\r'`, above `'\x7f'` the Unicode `White_Space` property.
pub open spec fn whitespace_char(c: char) -> bool {
    if (c as u32) < 128 {
        c == ' ' || ('\t' <= c && c <= '\r')
    } else {
        char_is_whitespace(c)
    }
}

/// What `char::is_alphanumeric` decides of `c`.
pub open spec fn alphanumeric_char(c: char) -> bool {
    alphabetic_char(c) || numeric_char(c)
}

/// Calls `char::is_alphabetic`. The result is named by
/// `char_is_alphabetic`; the contract adds what std's source shows of ASCII
/// characters: exactly the ASCII letters are alphabetic.
#[verifier::external_body]
pub(crate) fn is_alphabetic(c: char) -> (r: bool)
    ensures
        r == char_is_alphabetic(c),
        r == alphabetic_char(c),
{
    c.is_alphabetic()
}

/// Calls `char::is_numeric`. The result is named by `char_is_numeric`; the
/// contract adds what std's source shows of ASCII characters: exactly the
/// ASCII digits are numeric.
#[verifier::external_body]
pub(crate) fn is_numeric(c: char) -> (r: bool)
    ensures
        r == char_is_numeric(c),
        r == numeric_char(c),
{
    c.is_numeric()
}

/// Calls `char::is_alphanumeric`, which std documents as
/// `is_alphabetic() || is_numeric()`.
#[verifier::external_body]
pub(crate) fn is_alphanumeric(c: char) -> (r: bool)
    ensures
        r == char_is_alphanumeric(c),
        r == alphanumeric_char(c),
{
    c.is_alphanumeric()
}

/// Calls `char::is_whitespace`. The result is named by `char_is_whitespace`;
/// the contract adds what std's source shows of ASCII characters: exactly
/// the space and `'\t'` to `'\r'` are whitespace.
#[verifier::external_body]
pub(crate) fn is_whitespace(c: char) -> (r: bool)
    ensures
        r == char_is_whitespace(c),
        r == whitespace_char(c),
{
    c.is_whitespace()
}

/// `true` when the two texts hold the same characters.
pub(crate) fn str_eq(a: &str, b: &str) -> (r: bool)
    ensures
        r == (a@ == b@),
{
    let n = a.unicode_len();
    if n != b.unicode_len() {
        return false;
    }
    let mut i: usize = 0;
    while i < n
        invariant
            0 <= i <= n,
            n == a@.len(),
            n == b@.len(),
            forall|j: int| 0 <= j < i ==> a@[j] == b@[j],
        decreases n - i,
    {
        if a.get_char(i) != b.get_char(i) {
            return false;
        }
        i = i + 1;
    }
    assert(a@ =~= b@);
    true
}

/// Calls `String::push`, which appends one character.
#[verifier::external_body]
pub(crate) fn push_char(s: &mut String, c: char)
    ensures
        final(s)@ == old(s)@.push(c),
{
    s.push(c)
}

/// Appends a string slice.
pub(crate) fn push_str(s: &mut String, t: &str)
    ensures
        final(s)@ == old(s)@ + t@,
{
    s.append(t)
}

/// Calls `std::str::from_utf8`: it succeeds exactly on valid UTF-8, and the
/// string it gives back is made of those very bytes.
#[verifier::external_body]
pub(crate) fn utf8_to_str(bytes: &[u8]) -> (r: Option<&str>)
    ensures
        r is Some <==> valid_utf8(bytes@),
        r matches Some(s) ==> s@ == decode_utf8(bytes@) && s.spec_bytes() == bytes@,
{
    std::str::from_utf8(bytes).ok()
}

/// A new `String` holding the characters of `s`.
pub(crate) fn owned(s: &str) -> (r: String)
    ensures
        r@ == s@,
{
    s.to_owned()
}

/// The decimal digit character of `d`, for `d` below ten.
pub open spec fn digit_char(d: nat) -> char {
    ((48 + d) as u8) as char
}

/// The decimal notation of `n`, without leading zeros.
pub open spec fn decimal_spec(n: nat) -> Seq<char>
    decreases n,
{
    if n < 10 {
        seq![digit_char(n)]
    } else {
        decimal_spec(n / 10).push(digit_char(n % 10))
    }
}

/// Writes `n` in decimal.
pub fn decimal(n: usize) -> (r: String)
    ensures
        r@ == decimal_spec(n as nat),
    decreases n,
{
    if n < 10 {
        let mut s = String::new();
        push_char(&mut s, ((48 + n) as u8) as char);
        assert(s@ =~= seq![digit_char(n as nat)]);
        s
    } else {
        let mut s = decimal(n / 10);
        push_char(&mut s, ((48 + n % 10) as u8) as char);
        s
    }
}

/// The number that decimal digits stand for.
pub open spec fn digits_value(cs: Seq<char>) -> int
    decreases cs.len(),
{
    if cs.len() == 0 {
        0
    } else {
        digits_value(cs.drop_last()) * 10 + ((cs.last() as int) - 48)
    }
}

/// `n` in decimal is a non-empty run of the digits `0-9`, without a leading
/// zero unless it is zero, that reads back as `n`.
pub proof fn lemma_decimal_reads_back(n: nat)
    ensures
        decimal_spec(n).len() >= 1,
        forall|i: int| 0 <= i < decimal_spec(n).len() ==> '0' <= #[trigger] decimal_spec(n)[i] <= '9',
        decimal_spec(n)[0] == '0' ==> n == 0,
        digits_value(decimal_spec(n)) == n,
    decreases n,
{
    if n < 10 {
        assert((digit_char(n) as int) == 48 + n);
        assert(decimal_spec(n).drop_last() =~= Seq::<char>::empty());
        assert(digits_value(decimal_spec(n).drop_last()) == 0);
        assert(digits_value(decimal_spec(n)) == n);
    } else {
        let q = n / 10;
        let d = n % 10;
        lemma_decimal_reads_back(q);
        let ds = decimal_spec(n);
        assert(ds == decimal_spec(q).push(digit_char(d)));
        assert((digit_char(d) as int) == 48 + d);
        assert(ds.drop_last() =~= decimal_spec(q));
        assert forall|i: int| 0 <= i < ds.len() implies '0' <= #[trigger] ds[i] <= '9' by {
            if i < ds.len() - 1 {
                assert(ds[i] == decimal_spec(q)[i]);
            }
        }
        assert(ds[0] == decimal_spec(q)[0]);
        assert(q >= 1);
        assert(digits_value(ds) == digits_value(decimal_spec(q)) * 10 + d);
        assert(n == q * 10 + d);
    }
}

} // verus!
