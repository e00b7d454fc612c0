//! The frame codec: an incremental parser from a byte stream to frames, and a
//! formatter from a message to the bytes of its frame.
//!
//! A frame starts with a header of seven bytes: the transaction identifier, the
//! protocol identifier, which is zero, and the length field, each a big-endian
//! 16-bit integer, then the unit identifier.

use crate::cursor::{ReadBuffer, WriteCursor, WriteCursorView};
use crate::endian::{be_u16, high_byte, low_byte};
use crate::error::{Error, FrameError};
use crate::format::{format_with_length, Format};
use crate::frame::{Frame, FrameView};
use vstd::prelude::*;

verus! {

/// The number of bytes in a header.
pub const MBAP_HEADER_LENGTH: usize = 7;

/// The number of bytes in the longest frame.
pub const MAX_MBAP_FRAME_LENGTH: usize = MBAP_HEADER_LENGTH + Frame::MAX_ADU_LENGTH;

/// What a header says, the protocol identifier left out.
#[derive(Clone, Copy, Debug, PartialEq, Eq, Structural)]
pub struct MBAPHeader {
    pub tx_id: u16,
    pub length: u16,
    pub unit_id: u8,
}

/// The seven bytes that encode `header`.
pub open spec fn header_bytes(header: MBAPHeader) -> Seq<u8> {
    seq![
        high_byte(header.tx_id),
        low_byte(header.tx_id),
        0u8,
        0u8,
        high_byte(header.length),
        low_byte(header.length),
        header.unit_id,
    ]
}

/// The frame of `message` as the formatter writes it: a header whose length field
/// counts the unit identifier and the bytes of the message, then the message.
pub open spec fn formatted(tx_id: u16, unit_id: u8, message: Seq<u8>) -> Seq<u8> {
    header_bytes(MBAPHeader { tx_id, length: (message.len() + 1) as u16, unit_id }) + message
}

/// Turns messages into frames, in a scratch buffer of its own that is as large as the
/// longest frame.
pub struct MBAPFormatter {
    cursor: WriteCursor<MAX_MBAP_FRAME_LENGTH>,
}

impl View for MBAPFormatter {
    type V = WriteCursorView;

    /// The scratch buffer, and how far it is filled.
    closed spec fn view(&self) -> WriteCursorView {
        self.cursor@
    }
}

impl MBAPFormatter {
    /// A formatter with an empty scratch buffer.
    pub fn new() -> (formatter: MBAPFormatter)
        ensures
            formatter@.position == 0,
            formatter@.bytes.len() == MAX_MBAP_FRAME_LENGTH,
    {
        let cursor = WriteCursor::new();
        MBAPFormatter { cursor }
    }

    /// The scratch buffer of a formatter is always as large as the longest frame.
    pub proof fn lemma_scratch_length(&self)
        ensures
            self@.bytes.len() == MAX_MBAP_FRAME_LENGTH,
            self@.position <= MAX_MBAP_FRAME_LENGTH ==> self@.written().len() == self@.position,
    {
        self.cursor.lemma_capacity();
    }

    /// The frame that was formatted last.
    pub fn frame(&self) -> (bytes: &[u8])
        ensures
            bytes@ == self@.written(),
    {
        self.cursor.written()
    }

    /// Writes the frame of `msg` into the scratch buffer and returns it. The header
    /// is written first, and the message writes itself behind it, where it finds the
    /// scratch buffer as [`begun`] says, with room for [`Frame::MAX_ADU_LENGTH`]
    /// bytes. Where the message is written the frame is [`formatted`]; where it is
    /// not, its error is passed on.
    pub fn format<M: Format>(&mut self, tx_id: u16, unit_id: u8, msg: &M) -> (r: Result<
        &[u8],
        Error,
    >)
        ensures
            match msg.outcome(begun(old(self)@.bytes, tx_id, unit_id)) {
                Ok(_) => {
                    &&& r matches Ok(bytes)
                    &&& bytes@ == formatted(tx_id, unit_id, msg.wire())
                    &&& bytes@ == final(self)@.written()
                    &&& msg.wire().len() <= Frame::MAX_ADU_LENGTH
                },
                Err(e) => r == Err::<&[u8], Error>(e),
            },
            final(self)@.bytes.len() == MAX_MBAP_FRAME_LENGTH,
    {
        self.begin(tx_id, unit_id)?;
        let adu_length = format_with_length(msg, &mut self.cursor);
        proof {
            if adu_length is Ok {
                assert(self@.bytes.take(4) =~= header_bytes(
                    MBAPHeader { tx_id, length: 0, unit_id },
                ).take(4));
                assert(self@.bytes.subrange(6, 7 + msg.wire().len() as int) =~= seq![unit_id]
                    + msg.wire());
                assert(sealed(self@.bytes, msg.wire().len()) =~= formatted(
                    tx_id,
                    unit_id,
                    msg.wire(),
                ));
            }
        }
        self.finish(adu_length)
    }

    /// Starts a frame: moves to the start of the scratch buffer and writes the
    /// header, its length field left open.
    fn begin(&mut self, tx_id: u16, unit_id: u8) -> (r: Result<(), Error>)
        ensures
            r is Ok,
            final(self)@ == begun(old(self)@.bytes, tx_id, unit_id),
            final(self)@.bytes.len() == MAX_MBAP_FRAME_LENGTH,
    {
        proof {
            self.cursor.lemma_capacity();
        }
        self.cursor.seek_from_start(0)?;
        self.cursor.write_u16(tx_id)?;
        self.cursor.write_u16(0)?;
        self.cursor.skip(2)?;  // the length field, which is written last
        self.cursor.write_u8(unit_id)?;
        assert(self@.bytes =~= begun(old(self)@.bytes, tx_id, unit_id).bytes);
        Ok(())
    }

    /// Completes the frame in the scratch buffer, given what came of writing the
    /// message behind the header: the number of bytes written, or a failure. A
    /// failure is passed on. More bytes than a frame can carry are a failure too.
    /// Else the length field is set to that number and one, and the frame is the
    /// header with as many bytes behind it: see [`sealed`].
    pub fn finish(&mut self, adu_length: Result<u64, Error>) -> (r: Result<&[u8], Error>)
        ensures
            match adu_length {
                Err(e) => r == Err::<&[u8], Error>(e) && final(self)@ == old(self)@,
                Ok(n) => if n > Frame::MAX_ADU_LENGTH {
                    r == Err::<&[u8], Error>(Error::Serialization) && final(self)@ == old(self)@
                } else {
                    &&& r matches Ok(bytes)
                    &&& bytes@ == sealed(old(self)@.bytes, n as nat)
                    &&& bytes@ == final(self)@.written()
                },
            },
            final(self)@.bytes.len() == MAX_MBAP_FRAME_LENGTH,
    {
        proof {
            self.cursor.lemma_capacity();
        }
        let adu_length = adu_length?;
        if adu_length > Frame::MAX_ADU_LENGTH as u64 {
            return Err(Error::Serialization);
        }
        let frame_length_value = (adu_length + 1) as u16;
        self.cursor.seek_from_start(4)?;
        self.cursor.write_u16(frame_length_value)?;
        let total_length = MBAP_HEADER_LENGTH + adu_length as usize;
        self.cursor.seek_from_start(total_length)?;
        assert(self@.written() =~= sealed(old(self)@.bytes, adu_length as nat));
        Ok(self.cursor.written())
    }
}

/// The scratch buffer when a frame has been started in it: the header is written but
/// for its length field, whose two bytes are as they were, like all that follows
/// the header, and the position is behind the header.
pub open spec fn begun(scratch: Seq<u8>, tx_id: u16, unit_id: u8) -> WriteCursorView {
    WriteCursorView {
        bytes: seq![
            high_byte(tx_id),
            low_byte(tx_id),
            0u8,
            0u8,
            scratch[4],
            scratch[5],
            unit_id,
        ] + scratch.skip(MBAP_HEADER_LENGTH as int),
        position: MBAP_HEADER_LENGTH as nat,
    }
}

/// The frame in a scratch buffer that holds a header, its length field still open,
/// and a message of `adu_length` bytes behind it, once the length field is set: it
/// counts the unit identifier and the message.
pub open spec fn sealed(scratch: Seq<u8>, adu_length: nat) -> Seq<u8> {
    scratch.take(4) + seq![
        high_byte((adu_length + 1) as u16),
        low_byte((adu_length + 1) as u16),
    ] + scratch.subrange(6, MBAP_HEADER_LENGTH + adu_length as int)
}

/// What the first seven bytes of `input` say as a header: an error where the protocol
/// identifier is not zero, else an error where the length field is more than
/// [`Frame::MAX_ADU_LENGTH`], else the header.
pub open spec fn decode_header(input: Seq<u8>) -> Result<MBAPHeader, Error>
    recommends
        input.len() >= MBAP_HEADER_LENGTH,
{
    let protocol_id = be_u16(input[2], input[3]);
    let length = be_u16(input[4], input[5]);
    if protocol_id != 0 {
        Err(Error::Frame(FrameError::UnknownProtocolId(protocol_id)))
    } else if length > Frame::MAX_ADU_LENGTH {
        Err(Error::Frame(FrameError::BadLength(length)))
    } else {
        Ok(MBAPHeader { tx_id: be_u16(input[0], input[1]), length, unit_id: input[6] })
    }
}

/// Where the parser stands between two calls.
#[derive(Clone, Copy, Debug, PartialEq, Eq, Structural)]
pub enum ParseState {
    /// No byte of the next frame has been consumed.
    AwaitingHeader,
    /// The header of the next frame has been consumed; its body has not arrived in
    /// full.
    AwaitingBody(MBAPHeader),
}

impl ParseState {
    /// The number of bytes that must be unread for the next call to get further: the
    /// length of a header, or of the body that the parser waits for.
    pub open spec fn wanted(self) -> nat {
        match self {
            ParseState::AwaitingHeader => MBAP_HEADER_LENGTH as nat,
            ParseState::AwaitingBody(header) => header.length as nat,
        }
    }
}

/// What one call of the parser does.
pub struct Parsed {
    /// Where the parser stands after the call.
    pub state: ParseState,
    /// The input that the call has left unread.
    pub rest: Seq<u8>,
    /// What the call returns: a frame, or `None` while the frame is incomplete.
    pub result: Result<Option<FrameView>, Error>,
}

/// What a call does that finds the parser waiting for the body of `header`: nothing
/// while fewer bytes are there than the header's length field says, else it takes
/// exactly that many as the payload.
pub open spec fn parse_body_spec(header: MBAPHeader, input: Seq<u8>) -> Parsed {
    if input.len() < header.length {
        Parsed { state: ParseState::AwaitingBody(header), rest: input, result: Ok(None) }
    } else {
        Parsed {
            state: ParseState::AwaitingHeader,
            rest: input.skip(header.length as int),
            result: Ok(
                Some(
                    FrameView {
                        unit_id: header.unit_id,
                        tx_id: header.tx_id,
                        payload: input.take(header.length as int),
                    },
                ),
            ),
        }
    }
}

/// What one call of the parser does in `state` on the unread bytes `input`. Waiting
/// for a header it does nothing while fewer than seven bytes are there; else it
/// consumes the seven, fails on a header that breaks the rules, and goes on with the
/// body at once.
pub open spec fn parse_spec(state: ParseState, input: Seq<u8>) -> Parsed {
    match state {
        ParseState::AwaitingBody(header) => parse_body_spec(header, input),
        ParseState::AwaitingHeader => {
            if input.len() < MBAP_HEADER_LENGTH {
                Parsed { state, rest: input, result: Ok(None) }
            } else {
                match decode_header(input) {
                    Err(e) => Parsed {
                        state,
                        rest: input.skip(MBAP_HEADER_LENGTH as int),
                        result: Err(e),
                    },
                    Ok(header) => parse_body_spec(header, input.skip(MBAP_HEADER_LENGTH as int)),
                }
            }
        },
    }
}

/// Cuts a byte stream into frames. The parser keeps between calls whether it has
/// consumed a header, so that a frame may arrive in any number of pieces.
pub struct MBAPParser {
    state: ParseState,
}

impl View for MBAPParser {
    type V = ParseState;

    closed spec fn view(&self) -> ParseState {
        self.state
    }
}

impl MBAPParser {
    #[verifier::type_invariant]
    spec fn well_formed(&self) -> bool {
        self.state matches ParseState::AwaitingBody(header) ==> header.length
            <= Frame::MAX_ADU_LENGTH
    }

    /// A parser that waits for the header of the first frame.
    pub fn new() -> (parser: MBAPParser)
        ensures
            parser@ == ParseState::AwaitingHeader,
    {
        MBAPParser { state: ParseState::AwaitingHeader }
    }

    /// The number of bytes in the longest frame that the parser emits.
    pub fn max_frame_size(&self) -> (size: usize)
        ensures
            size == MAX_MBAP_FRAME_LENGTH,
    {
        MAX_MBAP_FRAME_LENGTH
    }

    /// The number of bytes that must be unread for the next call to get further.
    pub fn wanted(&self) -> (count: usize)
        ensures
            count == self@.wanted(),
            count <= Frame::MAX_ADU_LENGTH,
    {
        proof {
            use_type_invariant(self);
        }
        match self.state {
            ParseState::AwaitingHeader => MBAP_HEADER_LENGTH,
            ParseState::AwaitingBody(header) => header.length as usize,
        }
    }

    /// Reads a header from the front of the buffer. With fewer than seven bytes
    /// unread it fails and consumes nothing; else it consumes the seven, whatever
    /// they hold.
    pub fn parse_header(cursor: &mut ReadBuffer) -> (r: Result<MBAPHeader, Error>)
        ensures
            old(cursor)@.len() < MBAP_HEADER_LENGTH ==> r == Err::<MBAPHeader, Error>(
                Error::InsufficientBytes,
            ) && final(cursor)@ == old(cursor)@,
            old(cursor)@.len() >= MBAP_HEADER_LENGTH ==> r == decode_header(old(cursor)@)
                && final(cursor)@ == old(cursor)@.skip(MBAP_HEADER_LENGTH as int),
    {
        if cursor.len() < MBAP_HEADER_LENGTH {
            return Err(Error::InsufficientBytes);
        }
        let tx_id = cursor.read_u16_be()?;
        let protocol_id = cursor.read_u16_be()?;
        let length = cursor.read_u16_be()?;
        let unit_id = cursor.read_u8()?;
        assert(cursor@ =~= old(cursor)@.skip(MBAP_HEADER_LENGTH as int));

        if protocol_id != 0 {
            return Err(Error::Frame(FrameError::UnknownProtocolId(protocol_id)));
        }
        if length as usize > Frame::MAX_ADU_LENGTH {
            return Err(Error::Frame(FrameError::BadLength(length)));
        }
        Ok(MBAPHeader { tx_id, length, unit_id })
    }

    /// Reads the body that `header` announces from the front of the buffer. It fails,
    /// and consumes nothing, where the header's length field is over the limit or
    /// more than the bytes that are unread.
    pub fn parse_body(header: &MBAPHeader, cursor: &mut ReadBuffer) -> (r: Result<Frame, Error>)
        ensures
            header.length > Frame::MAX_ADU_LENGTH ==> r == Err::<Frame, Error>(
                Error::Frame(FrameError::BadLength(header.length)),
            ) && final(cursor)@ == old(cursor)@,
            header.length <= Frame::MAX_ADU_LENGTH && old(cursor)@.len() < header.length ==> r
                == Err::<Frame, Error>(Error::InsufficientBytes) && final(cursor)@ == old(cursor)@,
            header.length <= Frame::MAX_ADU_LENGTH && old(cursor)@.len() >= header.length ==> {
                &&& r matches Ok(frame)
                &&& parse_body_spec(*header, old(cursor)@).result == Ok::<
                    Option<FrameView>,
                    Error,
                >(Some(frame@))
                &&& final(cursor)@ == parse_body_spec(*header, old(cursor)@).rest
            },
    {
        if header.length as usize > Frame::MAX_ADU_LENGTH {
            return Err(Error::Frame(FrameError::BadLength(header.length)));
        }
        let mut frame = Frame::new(header.unit_id, header.tx_id);
        let body = cursor.read(header.length as usize)?;
        frame.set(body);
        Ok(frame)
    }

    /// Takes the next frame from the front of the buffer, if all of it is there:
    /// state, buffer and result are as [`parse_spec`] says. A call that returns
    /// `None` has consumed either nothing or exactly a header.
    pub fn parse(&mut self, cursor: &mut ReadBuffer) -> (r: Result<Option<Frame>, Error>)
        ensures
            final(self)@ == parse_spec(old(self)@, old(cursor)@).state,
            final(cursor)@ == parse_spec(old(self)@, old(cursor)@).rest,
            match r {
                Ok(Some(frame)) => parse_spec(old(self)@, old(cursor)@).result == Ok::<
                    Option<FrameView>,
                    Error,
                >(Some(frame@)),
                Ok(None) => parse_spec(old(self)@, old(cursor)@).result == Ok::<
                    Option<FrameView>,
                    Error,
                >(None),
                Err(e) => parse_spec(old(self)@, old(cursor)@).result == Err::<
                    Option<FrameView>,
                    Error,
                >(e),
            },
    {
        proof {
            use_type_invariant(&*self);
        }
        let header = match self.state {
            ParseState::AwaitingBody(header) => header,
            ParseState::AwaitingHeader => {
                if cursor.len() < MBAP_HEADER_LENGTH {
                    return Ok(None);
                }
                let header = Self::parse_header(cursor)?;
                self.state = ParseState::AwaitingBody(header);
                header
            },
        };
        if cursor.len() < header.length as usize {
            return Ok(None);
        }
        let frame = Self::parse_body(&header, cursor)?;
        self.state = ParseState::AwaitingHeader;
        Ok(Some(frame))
    }
}

} // verus!
