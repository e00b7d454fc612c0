//! The plain values that requests and responses are made of.

use crate::cursor::{WriteCursor, WriteCursorView};
use crate::endian::{high_byte, low_byte};
use crate::error::Error;
use crate::format::Format;
use vstd::prelude::*;

verus! {

/// A run of `count` consecutive addresses, the first of them `start`.
#[derive(Clone, Copy, Debug, PartialEq, Eq, Structural)]
pub struct AddressRange {
    pub start: u16,
    pub count: u16,
}

/// A value read from a device, with the address that it was read from.
#[derive(Clone, Copy, Debug, PartialEq, Eq)]
pub struct Indexed<T> {
    pub index: u16,
    pub value: T,
}

impl AddressRange {
    /// The largest number of bits that one request may ask for.
    pub const MAX_BINARY_BITS: u16 = 2000;

    /// The range of `count` addresses from `start`.
    pub fn new(start: u16, count: u16) -> (range: AddressRange)
        ensures
            range == (AddressRange { start, count }),
    {
        AddressRange { start, count }
    }

    /// Whether the range holds at least one address and no more than `limit`, and
    /// ends inside the 16-bit address space.
    pub open spec fn valid_within(self, limit: u16) -> bool {
        0 < self.count <= limit && self.start + self.count <= 0x1_0000
    }

    /// Whether a request for bits may ask for this range.
    #[verifier::when_used_as_spec(valid_for_bits)]
    pub fn is_valid_for_bits(&self) -> (valid: bool)
        ensures
            valid == self.valid_for_bits(),
    {
        self.count > 0 && self.count <= Self::MAX_BINARY_BITS && self.start <= u16::MAX - (
        self.count - 1)
    }

    /// The ranges that a request for bits may ask for.
    pub open spec fn valid_for_bits(&self) -> bool {
        self.valid_within(Self::MAX_BINARY_BITS)
    }
}

/// A range goes on the wire as its start and its count, each a big-endian 16-bit
/// integer.
impl Format for AddressRange {
    open spec fn wire(&self) -> Seq<u8> {
        seq![
            high_byte(self.start),
            low_byte(self.start),
            high_byte(self.count),
            low_byte(self.count),
        ]
    }

    /// A range is written where four bytes fit, and refused with
    /// [`Error::Serialization`] where they do not.
    open spec fn outcome(&self, cursor: WriteCursorView) -> Result<(), Error> {
        if cursor.fits(4) {
            Ok(())
        } else {
            Err(Error::Serialization)
        }
    }

    /// Writes nothing where it fails.
    fn format<const N: usize>(&self, cursor: &mut WriteCursor<N>) -> (r: Result<(), Error>)
        ensures
            r is Err ==> final(cursor)@ == old(cursor)@,
    {
        if cursor.remaining() < 4 {
            return Err(Error::Serialization);
        }
        cursor.write_u16(self.start)?;
        cursor.write_u16(self.count)?;
        assert(cursor@.bytes =~= old(cursor)@.put(self.wire()).bytes);
        Ok(())
    }
}

} // verus!
