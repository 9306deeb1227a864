//! UTF-8 validation of byte strings and decimal formatting of integers, as `std` does them.
use vstd::prelude::*;
use vstd::utf8::*;
use std::str::Utf8Error;

verus! {

/// `std::str::Utf8Error`, the error of a failed UTF-8 validation.
#[verifier::external_type_specification]
#[verifier::external_body]
pub struct ExUtf8Error(Utf8Error);

/// Calls `std::str::from_utf8`, which succeeds exactly when the bytes are valid UTF-8
/// and then views the same bytes as a string.
#[verifier::external_body]
pub(crate) fn str_from_utf8(v: &[u8]) -> (r: Result<&str, Utf8Error>)
    ensures
        r is Ok <==> valid_utf8(v@),
        r matches Ok(s) ==> s@ == decode_utf8(v@),
{
    std::str::from_utf8(v)
}

/// The digit `d` (below ten) as a character.
pub open spec fn digit_char(d: nat) -> char {
    (48 + d) as char
}

/// The decimal digits of `n`, most significant first, with no leading zero.
pub open spec fn decimal_digits(n: nat) -> Seq<char>
    decreases n,
{
    if n < 10 {
        seq![digit_char(n)]
    } else {
        decimal_digits(n / 10) + seq![digit_char(n % 10)]
    }
}

/// `x` in decimal, with a minus sign in front when negative.
pub open spec fn decimal(x: i32) -> Seq<char> {
    if x < 0 {
        seq!['-'] + decimal_digits((-(x as int)) as nat)
    } else {
        decimal_digits(x as nat)
    }
}

/// Calls `i32::to_string`, which writes the integer in decimal with a leading minus
/// sign when it is negative.
#[verifier::external_body]
pub(crate) fn i32_to_string(x: i32) -> (s: String)
    ensures
        s@ == decimal(x),
{
    x.to_string()
}

} // verus!
