//! Bit fields of a byte, related to the arithmetic that the wire grammar is
//! stated in.

use vstd::prelude::*;

verus! {

/// Whether `mask` has exactly one bit set.
pub open spec fn single_bit(mask: u8) -> bool {
    mask == 1 || mask == 2 || mask == 4 || mask == 8 || mask == 16 || mask == 32 || mask == 64
        || mask == 128
}

/// Whether the bit of `byte` that `mask` selects is set.
pub open spec fn bit_set(byte: u8, mask: u8) -> bool {
    (byte / mask) % 2 == 1
}

/// Whether a byte and a mask have a set bit in common.
pub fn has_bit(byte: u8, mask: u8) -> (r: bool)
    ensures
        r == (byte & mask != 0),
        single_bit(mask) ==> r == bit_set(byte, mask),
{
    assert(mask == 1 || mask == 2 || mask == 4 || mask == 8 || mask == 16 || mask == 32 || mask
        == 64 || mask == 128 ==> (byte & mask != 0) == ((byte / mask) % 2 == 1)) by (bit_vector);
    byte & mask != 0
}

/// The upper four bits of a byte.
pub fn high_nibble(byte: u8) -> (r: u8)
    ensures
        r == byte / 16,
{
    assert(byte >> 4 == byte / 16) by (bit_vector);
    byte >> 4
}

/// The lower four bits of a byte.
pub fn low_nibble(byte: u8) -> (r: u8)
    ensures
        r == byte % 16,
{
    assert(byte & 0x0F == byte % 16) by (bit_vector);
    byte & 0x0F
}

/// The lower seven bits of a byte.
pub fn low_seven(byte: u8) -> (r: u8)
    ensures
        r == byte % 128,
        r <= 127,
        byte >= 128 ==> r == byte - 128,
        byte < 128 ==> r == byte,
{
    assert(byte & 0x7F == byte % 128) by (bit_vector);
    byte & 0x7F
}

/// The three bits of a byte that start three places from the right.
pub fn three_bits(byte: u8) -> (r: u8)
    ensures
        r == (byte / 8) % 8,
{
    assert((byte >> 3) & 7 == (byte / 8) % 8) by (bit_vector);
    (byte >> 3) & 7
}

/// What the bit that lies `shift` places from the right weighs: 2 to the
/// power `shift`, and 256 beyond the byte.
pub open spec fn weight(shift: u8) -> int {
    if shift == 0 {
        1
    } else if shift == 1 {
        2
    } else if shift == 2 {
        4
    } else if shift == 3 {
        8
    } else if shift == 4 {
        16
    } else if shift == 5 {
        32
    } else if shift == 6 {
        64
    } else if shift == 7 {
        128
    } else {
        256
    }
}

/// The two bits of a byte that start `shift` places from the right, as a
/// number from 0 to 3. Places beyond the byte hold no bit.
pub fn two_bits(byte: u8, shift: u8) -> (r: u8)
    ensures
        r == (byte as int / weight(shift)) % 4,
{
    if shift >= 8 {
        return 0;
    }
    assert({
        &&& (shift == 0 ==> (byte >> shift) & 3 == (byte / 1) % 4)
        &&& (shift == 1 ==> (byte >> shift) & 3 == (byte / 2) % 4)
        &&& (shift == 2 ==> (byte >> shift) & 3 == (byte / 4) % 4)
        &&& (shift == 3 ==> (byte >> shift) & 3 == (byte / 8) % 4)
        &&& (shift == 4 ==> (byte >> shift) & 3 == (byte / 16) % 4)
        &&& (shift == 5 ==> (byte >> shift) & 3 == (byte / 32) % 4)
        &&& (shift == 6 ==> (byte >> shift) & 3 == (byte / 64) % 4)
        &&& (shift == 7 ==> (byte >> shift) & 3 == (byte / 128) % 4)
    }) by (bit_vector);
    (byte >> shift) & 3
}

} // verus!
