//! What the library takes on trust from code that is not verified here.

use vstd::prelude::*;
use vstd::utf8::{decode_utf8, valid_utf8};
use byteorder::{BigEndian, ByteOrder};
use rand::Rng;
use crate::wire::{be16, ser_u16};

verus! {

/// The error of `String::from_utf8`; nothing is read from it.
#[verifier::external_type_specification]
#[verifier::external_body]
pub struct ExFromUtf8Error(std::string::FromUtf8Error);

/// `String::from_utf8` succeeds exactly on bytes that are valid UTF-8, and
/// the string it gives then holds the characters that those bytes encode.
pub assume_specification[ String::from_utf8 ](vec: Vec<u8>) -> (r: Result<
    String,
    std::string::FromUtf8Error,
>)
    ensures
        r is Ok <==> valid_utf8(vec@),
        r matches Ok(s) ==> s@ == decode_utf8(vec@),
;

/// `byteorder::BigEndian::read_u16` gives the number whose high byte is the
/// first byte of `buf` and whose low byte is the second. It panics on fewer
/// than two bytes, which `requires` rules out.
#[verifier::external_body]
pub(crate) fn read_be_u16(buf: &[u8]) -> (r: u16)
    requires
        buf@.len() >= 2,
    ensures
        r == be16(buf@[0], buf@[1]),
{
    BigEndian::read_u16(buf)
}

/// `byteorder::BigEndian::write_u16` fills two bytes with the high byte of
/// `v`, then its low byte.
#[verifier::external_body]
pub(crate) fn write_be_u16(v: u16) -> (r: [u8; 2])
    ensures
        r@ == ser_u16(v),
{
    let mut buf = [0u8; 2];
    BigEndian::write_u16(&mut buf, v);
    buf
}

/// A number from `rand::thread_rng()`. Nothing is known of it.
#[verifier::external_body]
pub(crate) fn random_u32() -> u32 {
    rand::thread_rng().gen::<u32>()
}

} // verus!
