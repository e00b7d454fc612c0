//! Big-endian 16-bit integers, as the wire format stores them.

use byteorder::{BigEndian, ByteOrder};
use vstd::prelude::*;

verus! {

/// The 16-bit value whose big-endian encoding is `high` followed by `low`.
pub open spec fn be_u16(high: u8, low: u8) -> u16 {
    (high as int * 256 + low as int) as u16
}

/// The more significant byte of `value`.
pub open spec fn high_byte(value: u16) -> u8 {
    (value / 256) as u8
}

/// The less significant byte of `value`.
pub open spec fn low_byte(value: u16) -> u8 {
    (value % 256) as u8
}

/// Splitting a value into its two bytes and joining them again gives the value back.
pub proof fn lemma_be_u16_of_bytes(value: u16)
    ensures
        be_u16(high_byte(value), low_byte(value)) == value,
{
}

/// Calls `byteorder::BigEndian::read_u16`, which decodes the first two bytes of a
/// slice as a big-endian integer and panics on a shorter slice. Trusted: the result is
/// the first byte times 256 plus the second.
#[verifier::external_body]
pub(crate) fn read_u16_be(bytes: &[u8]) -> (value: u16)
    requires
        bytes@.len() >= 2,
    ensures
        value == be_u16(bytes@[0], bytes@[1]),
{
    BigEndian::read_u16(bytes)
}

/// Calls `byteorder::BigEndian::write_u16` on a fresh array of two bytes. The outside
/// function overwrites the first two bytes of its slice with the big-endian encoding
/// of the value. Trusted: the array holds the high byte of `value`, then the low byte.
#[verifier::external_body]
pub(crate) fn u16_to_be(value: u16) -> (bytes: [u8; 2])
    ensures
        bytes@ == seq![high_byte(value), low_byte(value)],
{
    let mut bytes = [0u8; 2];
    BigEndian::write_u16(&mut bytes, value);
    bytes
}

} // verus!
