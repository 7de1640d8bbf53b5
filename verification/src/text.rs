//! The trusted edge of the display model: fixed-capacity strings, the decimal
//! form of a number and the decoding of bytes as text.
//!
//! Nothing in this file is proved. Each function states what the call in its
//! body is documented to do; the rest of the library is verified against these
//! statements.

use vstd::prelude::*;
use vstd::utf8::{encode_utf8, valid_utf8};
use numtoa::NumToA;

verus! {

/// `heapless::String`: a text of at most `N` bytes, held in place.
#[verifier::external_type_specification]
#[verifier::external_body]
pub struct ExHeaplessString<const N: usize>(heapless::String<N>);

/// The characters that a string of at most 6 bytes holds.
pub uninterp spec fn text6(s: heapless::String<6>) -> Seq<char>;

/// The characters that a string of at most 22 bytes holds.
pub uninterp spec fn text22(s: heapless::String<22>) -> Seq<char>;

/// The number of bytes that `chars` take in UTF-8.
pub open spec fn byte_len(chars: Seq<char>) -> nat {
    encode_utf8(chars).len()
}

/// The decimal digit of `d`, for `d` below ten.
pub open spec fn digit(d: nat) -> char {
    (48 + d) as u8 as char
}

/// The decimal digits of `n`, most significant first, without leading zeros.
pub open spec fn digits(n: nat) -> Seq<char>
    decreases n,
{
    if n < 10 {
        seq![digit(n)]
    } else {
        digits(n / 10).push(digit(n % 10))
    }
}

/// The decimal form of `n`: a minus sign if it is negative, then its digits.
pub open spec fn decimal(n: int) -> Seq<char> {
    if n < 0 {
        seq!['-'] + digits((-n) as nat)
    } else {
        digits(n as nat)
    }
}

/// `numtoa::NumToA::numtoa_str` in base 10, on a buffer of six bytes: the
/// decimal form of `n`.
#[verifier::external_body]
pub(crate) fn decimal_i16(n: i16) -> (s: String)
    ensures
        s@ == decimal(n as int),
{
    let mut buf = [0u8; 6];
    n.numtoa_str(10, &mut buf).to_string()
}

/// `core::str::from_utf8`: the text that `bytes` encode, if they are UTF-8.
#[verifier::external_body]
pub(crate) fn utf8_text(bytes: &[u8]) -> (r: Option<&str>)
    ensures
        r is Some <==> valid_utf8(bytes@),
        r matches Some(s) ==> encode_utf8(s@) == bytes@,
{
    match core::str::from_utf8(bytes) {
        Ok(s) => Some(s),
        Err(_) => None,
    }
}

/// `heapless::String::new`: the new string is empty.
#[verifier::external_body]
pub(crate) fn new6() -> (s: heapless::String<6>)
    ensures
        text6(s) == Seq::<char>::empty(),
{
    heapless::String::new()
}

/// `heapless::String::as_str`: the characters that the string holds.
#[verifier::external_body]
pub(crate) fn str6(s: &heapless::String<6>) -> (r: &str)
    ensures
        r@ == text6(*s),
{
    s.as_str()
}

/// `Clone::clone` of `heapless::String`: a string with the same characters.
#[verifier::external_body]
pub(crate) fn clone6(s: &heapless::String<6>) -> (r: heapless::String<6>)
    ensures
        text6(r) == text6(*s),
{
    s.clone()
}

/// `heapless::String::push_str`: the string takes `t` at its end if the bytes
/// of both fit its capacity, and else stays as it is. The result says which.
#[verifier::external_body]
pub(crate) fn push_str6(s: &mut heapless::String<6>, t: &str) -> (fit: bool)
    ensures
        fit == (byte_len(text6(*old(s))) + byte_len(t@) <= 6),
        text6(*final(s)) == if fit {
            text6(*old(s)) + t@
        } else {
            text6(*old(s))
        },
{
    s.push_str(t).is_ok()
}

/// `heapless::String::new`: the new string is empty.
#[verifier::external_body]
pub(crate) fn new22() -> (s: heapless::String<22>)
    ensures
        text22(s) == Seq::<char>::empty(),
{
    heapless::String::new()
}

/// `heapless::String::as_str`: the characters that the string holds.
#[verifier::external_body]
pub(crate) fn str22(s: &heapless::String<22>) -> (r: &str)
    ensures
        r@ == text22(*s),
{
    s.as_str()
}

/// `Clone::clone` of `heapless::String`: a string with the same characters.
#[verifier::external_body]
pub(crate) fn clone22(s: &heapless::String<22>) -> (r: heapless::String<22>)
    ensures
        text22(r) == text22(*s),
{
    s.clone()
}

/// `heapless::String::push_str`: the string takes `t` at its end if the bytes
/// of both fit its capacity, and else stays as it is. The result says which.
#[verifier::external_body]
pub(crate) fn push_str22(s: &mut heapless::String<22>, t: &str) -> (fit: bool)
    ensures
        fit == (byte_len(text22(*old(s))) + byte_len(t@) <= 22),
        text22(*final(s)) == if fit {
            text22(*old(s)) + t@
        } else {
            text22(*old(s))
        },
{
    s.push_str(t).is_ok()
}

/// `heapless::String::push`: the string takes `c` at its end if the bytes of
/// both fit its capacity, and else stays as it is. The result says which.
#[verifier::external_body]
pub(crate) fn push22(s: &mut heapless::String<22>, c: char) -> (fit: bool)
    ensures
        fit == (byte_len(text22(*old(s))) + byte_len(seq![c]) <= 22),
        text22(*final(s)) == if fit {
            text22(*old(s)).push(c)
        } else {
            text22(*old(s))
        },
{
    s.push(c).is_ok()
}

} // verus!
