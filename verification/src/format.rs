use crate::cursor::{WriteCursor, WriteCursorView};
use crate::error::Error;
use vstd::prelude::*;

verus! {

/// A message that can write itself into a frame: everything that follows the unit
/// identifier, function code first.
pub trait Format {
    /// The bytes that the message contributes to a frame.
    spec fn wire(&self) -> Seq<u8>;

    /// What comes of writing the message at `cursor`: whether it is written, and the
    /// error with which it is not. This is for the message to decide.
    spec fn outcome(&self, cursor: WriteCursorView) -> Result<(), Error>;

    /// Writes the message at the cursor's position, with the result that
    /// [`Format::outcome`] names. Where this succeeds, exactly the bytes of
    /// [`Format::wire`] were written there.
    fn format<const N: usize>(&self, cursor: &mut WriteCursor<N>) -> (r: Result<(), Error>)
        ensures
            r == self.outcome(old(cursor)@),
            r is Ok ==> old(cursor)@.fits(self.wire().len())
                && final(cursor)@ == old(cursor)@.put(self.wire()),
    ;
}

/// Writes `msg` at the cursor's position and returns the number of bytes written.
/// It succeeds where the message's own writing does, and fails with its error where
/// that fails.
pub fn format_with_length<M: Format, const N: usize>(
    msg: &M,
    cursor: &mut WriteCursor<N>,
) -> (r: Result<u64, Error>)
    ensures
        match msg.outcome(old(cursor)@) {
            Ok(_) => {
                &&& r == Ok::<u64, Error>(msg.wire().len() as u64)
                &&& old(cursor)@.fits(msg.wire().len())
                &&& final(cursor)@ == old(cursor)@.put(msg.wire())
            },
            Err(e) => r == Err::<u64, Error>(e),
        },
{
    let start = cursor.position();
    msg.format(cursor)?;
    Ok((cursor.position() - start) as u64)
}

/// Raw bytes are a message: they stand for themselves.
impl Format for &[u8] {
    open spec fn wire(&self) -> Seq<u8> {
        self@
    }

    /// Bytes are written where they fit, and refused with [`Error::Serialization`]
    /// where they do not.
    open spec fn outcome(&self, cursor: WriteCursorView) -> Result<(), Error> {
        if cursor.fits(self@.len()) {
            Ok(())
        } else {
            Err(Error::Serialization)
        }
    }

    /// Writes nothing where it fails.
    fn format<const N: usize>(&self, cursor: &mut WriteCursor<N>) -> (r: Result<(), Error>)
        ensures
            r is Err ==> final(cursor)@ == old(cursor)@,
    {
        cursor.write(self)
    }
}

} // verus!
