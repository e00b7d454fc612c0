use crate::endian::{be_u16, high_byte, low_byte, read_u16_be, u16_to_be};
use crate::error::Error;
use vstd::prelude::*;

verus! {

/// A queue of received bytes: the transport side appends what arrives, the parser
/// takes bytes from the front.
pub struct ReadBuffer {
    buffer: Vec<u8>,
    begin: usize,
}

impl View for ReadBuffer {
    type V = Seq<u8>;

    /// The bytes that were appended and not yet read, oldest first.
    closed spec fn view(&self) -> Seq<u8> {
        self.buffer@.subrange(self.begin as int, self.buffer@.len() as int)
    }
}

impl ReadBuffer {
    #[verifier::type_invariant]
    spec fn well_formed(&self) -> bool {
        self.begin <= self.buffer@.len()
    }

    /// An empty buffer.
    pub fn new() -> (buffer: ReadBuffer)
        ensures
            buffer@ == Seq::<u8>::empty(),
    {
        ReadBuffer { buffer: Vec::new(), begin: 0 }
    }

    /// The number of unread bytes.
    pub fn len(&self) -> (n: usize)
        ensures
            n == self@.len(),
    {
        proof {
            use_type_invariant(self);
        }
        self.buffer.len() - self.begin
    }

    /// Whether no unread byte is left.
    pub fn is_empty(&self) -> (empty: bool)
        ensures
            empty == (self@.len() == 0),
    {
        proof {
            use_type_invariant(self);
        }
        self.buffer.len() == self.begin
    }

    /// Drops the unread bytes.
    pub fn clear(&mut self)
        ensures
            final(self)@ == Seq::<u8>::empty(),
    {
        self.begin = self.buffer.len();
        assert(self@ =~= Seq::<u8>::empty());
    }

    /// Appends bytes that have arrived from the transport.
    pub fn extend(&mut self, bytes: &[u8])
        ensures
            final(self)@ == old(self)@ + bytes@,
    {
        proof {
            use_type_invariant(&*self);
        }
        let drained = self.begin == self.buffer.len();
        let begin = if drained { 0 } else { self.begin };
        // the bytes are taken out while they grow; an empty vector stands in for them
        let mut buffer: Vec<u8> = Vec::new();
        self.begin = 0;
        core::mem::swap(&mut self.buffer, &mut buffer);
        if drained {
            buffer.clear();
        }
        buffer.extend_from_slice(bytes);
        core::mem::swap(&mut self.buffer, &mut buffer);
        self.begin = begin;
        assert(self@ =~= old(self)@ + bytes@);
    }

    /// Reads one byte.
    pub fn read_u8(&mut self) -> (r: Result<u8, Error>)
        ensures
            old(self)@.len() >= 1 ==> r == Ok::<u8, Error>(old(self)@[0])
                && final(self)@ == old(self)@.skip(1),
            old(self)@.len() < 1 ==> r == Err::<u8, Error>(Error::InsufficientBytes)
                && final(self)@ == old(self)@,
    {
        proof {
            use_type_invariant(&*self);
        }
        if self.buffer.len() - self.begin < 1 {
            return Err(Error::InsufficientBytes);
        }
        let value = self.buffer[self.begin];
        self.begin = self.begin + 1;
        Ok(value)
    }

    /// Reads two bytes as a big-endian integer.
    pub fn read_u16_be(&mut self) -> (r: Result<u16, Error>)
        ensures
            old(self)@.len() >= 2 ==> r == Ok::<u16, Error>(be_u16(old(self)@[0], old(self)@[1]))
                && final(self)@ == old(self)@.skip(2),
            old(self)@.len() < 2 ==> r == Err::<u16, Error>(Error::InsufficientBytes)
                && final(self)@ == old(self)@,
    {
        proof {
            use_type_invariant(&*self);
        }
        if self.buffer.len() - self.begin < 2 {
            return Err(Error::InsufficientBytes);
        }
        let value = read_u16_be(
            vstd::slice::slice_subrange(self.buffer.as_slice(), self.begin, self.begin + 2),
        );
        self.begin = self.begin + 2;
        Ok(value)
    }

    /// Reads `count` bytes.
    pub fn read(&mut self, count: usize) -> (r: Result<&[u8], Error>)
        ensures
            old(self)@.len() >= count ==> r is Ok && r->Ok_0@ == old(self)@.take(count as int)
                && final(self)@ == old(self)@.skip(count as int),
            old(self)@.len() < count ==> r == Err::<&[u8], Error>(Error::InsufficientBytes)
                && final(self)@ == old(self)@,
    {
        proof {
            use_type_invariant(&*self);
        }
        if self.buffer.len() - self.begin < count {
            return Err(Error::InsufficientBytes);
        }
        let start = self.begin;
        self.begin = self.begin + count;
        Ok(vstd::slice::slice_subrange(self.buffer.as_slice(), start, start + count))
    }
}

/// What a [`WriteCursor`] holds: the whole destination, and how far it has been
/// written.
pub struct WriteCursorView {
    pub bytes: Seq<u8>,
    pub position: nat,
}

impl WriteCursorView {
    /// Whether `count` more bytes can be written at the position.
    pub open spec fn fits(self, count: nat) -> bool {
        self.position + count <= self.bytes.len()
    }

    /// The cursor after `data` has been written at the position.
    pub open spec fn put(self, data: Seq<u8>) -> WriteCursorView
        recommends
            self.fits(data.len()),
    {
        WriteCursorView {
            bytes: self.bytes.take(self.position as int) + data + self.bytes.skip(
                (self.position + data.len()) as int,
            ),
            position: self.position + data.len(),
        }
    }

    /// The cursor moved to `position`, its bytes untouched.
    pub open spec fn at(self, position: nat) -> WriteCursorView
        recommends
            position <= self.bytes.len(),
    {
        WriteCursorView { bytes: self.bytes, position }
    }

    /// The bytes in front of the position.
    pub open spec fn written(self) -> Seq<u8> {
        self.bytes.take(self.position as int)
    }
}

/// A destination of `N` bytes with a write position. A write either fits as a whole
/// or leaves the cursor as it was.
pub struct WriteCursor<const N: usize> {
    buffer: [u8; N],
    position: usize,
}

impl<const N: usize> View for WriteCursor<N> {
    type V = WriteCursorView;

    closed spec fn view(&self) -> WriteCursorView {
        WriteCursorView { bytes: self.buffer@, position: self.position as nat }
    }
}

impl<const N: usize> WriteCursor<N> {
    #[verifier::type_invariant]
    spec fn well_formed(&self) -> bool {
        self.position <= N
    }

    /// A cursor at the start of `N` zero bytes.
    pub fn new() -> (cursor: WriteCursor<N>)
        ensures
            cursor@.position == 0,
            cursor@.bytes == Seq::new(N as nat, |i: int| 0u8),
    {
        let buffer = [0u8; N];
        assert(buffer@ =~= Seq::new(N as nat, |i: int| 0u8));
        WriteCursor { buffer, position: 0 }
    }

    /// The destination of a cursor always has `N` bytes.
    pub proof fn lemma_capacity(&self)
        ensures
            self@.bytes.len() == N,
    {
    }

    /// The write position, which is never behind the end of the destination.
    pub fn position(&self) -> (position: usize)
        ensures
            position == self@.position,
            position <= N,
    {
        proof {
            use_type_invariant(self);
        }
        self.position
    }

    /// The size of the destination.
    pub fn capacity(&self) -> (capacity: usize)
        ensures
            capacity == self@.bytes.len() == N,
    {
        N
    }

    /// The number of bytes that can still be written.
    pub fn remaining(&self) -> (count: usize)
        ensures
            count == self@.bytes.len() - self@.position,
    {
        proof {
            use_type_invariant(self);
        }
        N - self.position
    }

    /// The bytes in front of the position.
    pub fn written(&self) -> (bytes: &[u8])
        ensures
            bytes@ == self@.written(),
    {
        proof {
            use_type_invariant(self);
        }
        vstd::slice::slice_subrange(self.buffer.as_slice(), 0, self.position)
    }

    /// Writes one byte.
    pub fn write_u8(&mut self, value: u8) -> (r: Result<(), Error>)
        ensures
            old(self)@.fits(1) ==> r == Ok::<(), Error>(())
                && final(self)@ == old(self)@.put(seq![value]),
            !old(self)@.fits(1) ==> r == Err::<(), Error>(Error::Serialization)
                && final(self)@ == old(self)@,
    {
        proof {
            use_type_invariant(&*self);
        }
        if N - self.position < 1 {
            return Err(Error::Serialization);
        }
        self.buffer[self.position] = value;
        self.position = self.position + 1;
        assert(self@.bytes =~= old(self)@.put(seq![value]).bytes);
        Ok(())
    }

    /// Writes a 16-bit integer, more significant byte first.
    pub fn write_u16(&mut self, value: u16) -> (r: Result<(), Error>)
        ensures
            old(self)@.fits(2) ==> r == Ok::<(), Error>(())
                && final(self)@ == old(self)@.put(seq![high_byte(value), low_byte(value)]),
            !old(self)@.fits(2) ==> r == Err::<(), Error>(Error::Serialization)
                && final(self)@ == old(self)@,
    {
        proof {
            use_type_invariant(&*self);
        }
        if N - self.position < 2 {
            return Err(Error::Serialization);
        }
        let encoded = u16_to_be(value);
        self.buffer[self.position] = encoded[0];
        self.buffer[self.position + 1] = encoded[1];
        self.position = self.position + 2;
        assert(self@.bytes =~= old(self)@.put(seq![high_byte(value), low_byte(value)]).bytes);
        Ok(())
    }

    /// Writes all of `data`.
    pub fn write(&mut self, data: &[u8]) -> (r: Result<(), Error>)
        ensures
            old(self)@.fits(data@.len()) ==> r == Ok::<(), Error>(())
                && final(self)@ == old(self)@.put(data@),
            !old(self)@.fits(data@.len()) ==> r == Err::<(), Error>(Error::Serialization)
                && final(self)@ == old(self)@,
    {
        proof {
            use_type_invariant(&*self);
        }
        if N - self.position < data.len() {
            return Err(Error::Serialization);
        }
        let ghost before = self@;
        let start = self.position;
        let mut done: usize = 0;
        while done < data.len()
            invariant
                done <= data@.len(),
                start + data@.len() <= N,
                self.position == start == before.position,
                self.buffer@.len() == before.bytes.len(),
                self.buffer@ == before.put(data@.take(done as int)).bytes,
            decreases data@.len() - done,
        {
            self.buffer[start + done] = data[done];
            done = done + 1;
            assert(self.buffer@ =~= before.put(data@.take(done as int)).bytes);
        }
        assert(data@.take(done as int) =~= data@);
        self.position = start + done;
        Ok(())
    }

    /// Moves the position forward over `count` bytes without writing them.
    pub fn skip(&mut self, count: usize) -> (r: Result<(), Error>)
        ensures
            old(self)@.fits(count as nat) ==> r == Ok::<(), Error>(())
                && final(self)@ == old(self)@.at(old(self)@.position + count as nat),
            !old(self)@.fits(count as nat) ==> r == Err::<(), Error>(Error::Serialization)
                && final(self)@ == old(self)@,
    {
        proof {
            use_type_invariant(&*self);
        }
        if N - self.position < count {
            return Err(Error::Serialization);
        }
        self.position = self.position + count;
        Ok(())
    }

    /// Moves the position to `position`, counted from the start of the destination.
    pub fn seek_from_start(&mut self, position: usize) -> (r: Result<(), Error>)
        ensures
            position <= old(self)@.bytes.len() ==> r == Ok::<(), Error>(())
                && final(self)@ == old(self)@.at(position as nat),
            position > old(self)@.bytes.len() ==> r == Err::<(), Error>(Error::Serialization)
                && final(self)@ == old(self)@,
    {
        if position > N {
            return Err(Error::Serialization);
        }
        self.position = position;
        Ok(())
    }
}

} // verus!
