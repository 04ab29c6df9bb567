//! Reading an integer literal out of source bytes.

use vstd::prelude::*;
use vstd::utf8::{decode_utf8, valid_utf8};

verus! {

/// The message of the error that rejecting `bytes` as UTF-8 gives.
pub uninterp spec fn utf8_error_text(bytes: Seq<u8>) -> Seq<char>;

/// The message of the error that rejecting `text` as an `i64` gives.
pub uninterp spec fn int_error_text(text: Seq<char>) -> Seq<char>;

/// The character is an ASCII decimal digit.
pub open spec fn is_digit(c: char) -> bool {
    '0' <= c && c <= '9'
}

/// The value of a string of decimal digits.
pub open spec fn digits_value(d: Seq<char>) -> int
    decreases d.len(),
{
    if d.len() == 0 {
        0
    } else {
        digits_value(d.drop_last()) * 10 + (d.last() as int - '0' as int)
    }
}

/// Every character is a decimal digit.
pub open spec fn all_digits(d: Seq<char>) -> bool {
    forall|i: int| 0 <= i < d.len() ==> is_digit(#[trigger] d[i])
}

/// The text after an optional leading `+` or `-`.
pub open spec fn unsigned_part(t: Seq<char>) -> Seq<char> {
    if t.len() > 0 && (t[0] == '-' || t[0] == '+') {
        t.drop_first()
    } else {
        t
    }
}

/// The value that `t` denotes once its digits are read and its sign applied.
pub open spec fn signed_value(t: Seq<char>) -> int {
    if t.len() > 0 && t[0] == '-' {
        -digits_value(unsigned_part(t))
    } else {
        digits_value(unsigned_part(t))
    }
}

/// The signed 64-bit integer that `t` spells in decimal: an optional `+` or
/// `-`, then one or more digits and nothing else, with a value in range.
pub open spec fn int_text(t: Seq<char>) -> Option<i64> {
    if unsigned_part(t).len() > 0 && all_digits(unsigned_part(t)) && i64::MIN <= signed_value(t)
        <= i64::MAX {
        Some(signed_value(t) as i64)
    } else {
        None
    }
}

/// Relies on std::str::from_utf8: `Ok` exactly for valid UTF-8, holding the
/// decoded text; otherwise the error's message, which depends on the bytes
/// alone.
#[verifier::external_body]
pub(crate) fn str_from_utf8<'a>(bytes: &'a [u8]) -> (r: Result<&'a str, String>)
    ensures
        match r {
            Ok(s) => valid_utf8(bytes@) && s@ == decode_utf8(bytes@),
            Err(e) => !valid_utf8(bytes@) && e@ == utf8_error_text(bytes@),
        },
{
    match std::str::from_utf8(bytes) {
        Ok(s) => Ok(s),
        Err(e) => Err(e.to_string()),
    }
}

/// Relies on `str::parse::<i64>` (i64::from_str): an optional sign and
/// decimal digits whose value fits; otherwise the error's message, which
/// depends on the text alone.
#[verifier::external_body]
pub(crate) fn parse_i64(text: &str) -> (r: Result<i64, String>)
    ensures
        match r {
            Ok(v) => int_text(text@) == Some(v),
            Err(e) => int_text(text@) is None && e@ == int_error_text(text@),
        },
{
    match text.parse::<i64>() {
        Ok(v) => Ok(v),
        Err(e) => Err(e.to_string()),
    }
}

} // verus!
