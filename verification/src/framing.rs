//! What holds of the codec on every input: which headers it refuses, that a frame may
//! arrive in any number of pieces, and what it makes of the formatter's own output.

use crate::endian::{be_u16, lemma_be_u16_of_bytes};
use crate::error::{Error, FrameError};
use crate::frame::{Frame, FrameView};
use crate::mbap::{
    decode_header, formatted, header_bytes, parse_body_spec, parse_spec, MBAPHeader, ParseState,
    Parsed, MBAP_HEADER_LENGTH,
};
use vstd::prelude::*;

verus! {

/// The bytes of a frame as the parser takes it: a header whose length field is the
/// number of bytes that follow the header, then that many bytes.
pub open spec fn framed(frame: FrameView) -> Seq<u8> {
    header_bytes(
        MBAPHeader {
            tx_id: frame.tx_id,
            length: frame.payload.len() as u16,
            unit_id: frame.unit_id,
        },
    ) + frame.payload
}

/// A header whose protocol identifier is not zero is refused for it, whatever its
/// other fields hold and whatever follows it.
pub proof fn lemma_protocol_id_enforced(input: Seq<u8>)
    requires
        input.len() >= MBAP_HEADER_LENGTH,
        be_u16(input[2], input[3]) != 0,
    ensures
        parse_spec(ParseState::AwaitingHeader, input).result == Err::<Option<FrameView>, Error>(
            Error::Frame(FrameError::UnknownProtocolId(be_u16(input[2], input[3]))),
        ),
{
}

/// A header with protocol identifier zero whose length field is over the limit is
/// refused for its length, whether or not the bytes that it announces are there.
pub proof fn lemma_length_bound_enforced(input: Seq<u8>)
    requires
        input.len() >= MBAP_HEADER_LENGTH,
        be_u16(input[2], input[3]) == 0,
        be_u16(input[4], input[5]) > Frame::MAX_ADU_LENGTH,
    ensures
        parse_spec(ParseState::AwaitingHeader, input).result == Err::<Option<FrameView>, Error>(
            Error::Frame(FrameError::BadLength(be_u16(input[4], input[5]))),
        ),
{
}

/// The parser reads a header back as it was written.
pub proof fn lemma_decode_header_bytes(header: MBAPHeader, rest: Seq<u8>)
    requires
        header.length <= Frame::MAX_ADU_LENGTH,
    ensures
        decode_header(header_bytes(header) + rest) == Ok::<MBAPHeader, Error>(header),
{
    lemma_be_u16_of_bytes(header.tx_id);
    lemma_be_u16_of_bytes(header.length);
}

/// A whole frame in one piece: the parser emits it and is left with what follows it.
pub proof fn lemma_parse_framed(frame: FrameView, rest: Seq<u8>)
    requires
        frame.payload.len() <= Frame::MAX_ADU_LENGTH,
    ensures
        parse_spec(ParseState::AwaitingHeader, framed(frame) + rest) == (Parsed {
            state: ParseState::AwaitingHeader,
            rest,
            result: Ok(Some(frame)),
        }),
{
    let header = MBAPHeader {
        tx_id: frame.tx_id,
        length: frame.payload.len() as u16,
        unit_id: frame.unit_id,
    };
    let input = framed(frame) + rest;
    assert(input =~= header_bytes(header) + (frame.payload + rest));
    lemma_decode_header_bytes(header, frame.payload + rest);
    assert(input.skip(MBAP_HEADER_LENGTH as int) =~= frame.payload + rest);
    assert((frame.payload + rest).take(header.length as int) =~= frame.payload);
    assert((frame.payload + rest).skip(header.length as int) =~= rest);
}

/// The pieces of a stream, put together again.
pub open spec fn joined(chunks: Seq<Seq<u8>>) -> Seq<u8>
    decreases chunks.len(),
{
    if chunks.len() == 0 {
        Seq::empty()
    } else {
        chunks[0] + joined(chunks.skip(1))
    }
}

/// What the calls of the parser do when the pieces arrive one by one and the parser
/// is called after each: the k-th entry is the call after the k-th piece.
pub open spec fn fed(state: ParseState, unread: Seq<u8>, chunks: Seq<Seq<u8>>) -> Seq<Parsed>
    decreases chunks.len(),
{
    if chunks.len() == 0 {
        Seq::empty()
    } else {
        let first = parse_spec(state, unread + chunks[0]);
        seq![first] + fed(first.state, first.rest, chunks.skip(1))
    }
}

/// The number of bytes in the first `k` pieces.
pub open spec fn arrived_after(chunks: Seq<Seq<u8>>, k: int) -> int {
    joined(chunks.take(k)).len() as int
}

/// What the call emits during which the bytes of `frame` that have arrived grow from
/// `before` to `after`: the frame if it became complete, and nothing otherwise.
pub open spec fn emitted(frame: FrameView, before: int, after: int) -> Result<
    Option<FrameView>,
    Error,
> {
    if before < framed(frame).len() <= after {
        Ok(Some(frame))
    } else {
        Ok(None)
    }
}

/// Where parser and buffer stand when the first `arrived` bytes of `frame` have
/// arrived in some pieces, the parser called after each.
pub open spec fn midway(
    frame: FrameView,
    arrived: int,
    state: ParseState,
    unread: Seq<u8>,
) -> bool {
    let image = framed(frame);
    let header = MBAPHeader {
        tx_id: frame.tx_id,
        length: frame.payload.len() as u16,
        unit_id: frame.unit_id,
    };
    if arrived >= image.len() {
        state == ParseState::AwaitingHeader && unread == Seq::<u8>::empty()
    } else if arrived < MBAP_HEADER_LENGTH {
        state == ParseState::AwaitingHeader && unread == image.take(arrived)
    } else {
        state == ParseState::AwaitingBody(header) && unread == image.subrange(
            MBAP_HEADER_LENGTH as int,
            arrived,
        )
    }
}

/// One more piece of a frame arrives: the call emits the frame if the piece
/// completes it, and nothing otherwise.
pub proof fn lemma_piece(
    frame: FrameView,
    arrived: int,
    state: ParseState,
    unread: Seq<u8>,
    piece: Seq<u8>,
)
    requires
        frame.payload.len() <= Frame::MAX_ADU_LENGTH,
        0 <= arrived,
        arrived + piece.len() <= framed(frame).len(),
        piece == framed(frame).subrange(arrived, arrived + piece.len()),
        midway(frame, arrived, state, unread),
    ensures
        midway(
            frame,
            arrived + piece.len(),
            parse_spec(state, unread + piece).state,
            parse_spec(state, unread + piece).rest,
        ),
        parse_spec(state, unread + piece).result == emitted(
            frame,
            arrived,
            arrived + piece.len(),
        ),
{
    let image = framed(frame);
    let header = MBAPHeader {
        tx_id: frame.tx_id,
        length: frame.payload.len() as u16,
        unit_id: frame.unit_id,
    };
    let now = arrived + piece.len();
    let input = unread + piece;
    if arrived >= image.len() {
        assert(input =~= Seq::<u8>::empty());
    } else if arrived < MBAP_HEADER_LENGTH {
        assert(input =~= image.take(now));
        if now >= MBAP_HEADER_LENGTH {
            let body = image.subrange(MBAP_HEADER_LENGTH as int, now);
            assert(input =~= header_bytes(header) + body);
            lemma_decode_header_bytes(header, body);
            assert(input.skip(MBAP_HEADER_LENGTH as int) =~= body);
            if now >= image.len() {
                assert(body.take(header.length as int) =~= frame.payload);
                assert(body.skip(header.length as int) =~= Seq::<u8>::empty());
            }
        }
    } else {
        let body = image.subrange(MBAP_HEADER_LENGTH as int, now);
        assert(input =~= body);
        if now >= image.len() {
            assert(body.take(header.length as int) =~= frame.payload);
            assert(body.skip(header.length as int) =~= Seq::<u8>::empty());
        }
    }
}

/// A frame that arrives in pieces, from a point where its first `arrived` bytes have
/// arrived: see [`lemma_fragmentation`].
proof fn lemma_pieces(
    frame: FrameView,
    arrived: int,
    state: ParseState,
    unread: Seq<u8>,
    chunks: Seq<Seq<u8>>,
)
    requires
        frame.payload.len() <= Frame::MAX_ADU_LENGTH,
        0 <= arrived <= framed(frame).len(),
        joined(chunks) == framed(frame).skip(arrived),
        midway(frame, arrived, state, unread),
    ensures
        fed(state, unread, chunks).len() == chunks.len(),
        forall|k: int|
            0 <= k < chunks.len() ==> (#[trigger] fed(state, unread, chunks)[k]).result == emitted(
                frame,
                arrived + arrived_after(chunks, k),
                arrived + arrived_after(chunks, k + 1),
            ),
        chunks.len() > 0 ==> fed(state, unread, chunks).last().state == ParseState::AwaitingHeader
            && fed(state, unread, chunks).last().rest == Seq::<u8>::empty(),
    decreases chunks.len(),
{
    if chunks.len() > 0 {
        let image = framed(frame);
        let piece = chunks[0];
        let later = chunks.skip(1);
        let first = parse_spec(state, unread + piece);
        let now = arrived + piece.len();
        assert(piece =~= image.subrange(arrived, now)) by {
            assert(joined(chunks) == piece + joined(later));
            assert(image.skip(arrived).take(piece.len() as int) =~= piece);
        }
        assert(joined(later) =~= image.skip(now)) by {
            assert(joined(chunks) == piece + joined(later));
            assert(image.skip(arrived).skip(piece.len() as int) =~= joined(later));
        }
        lemma_piece(frame, arrived, state, unread, piece);
        lemma_pieces(frame, now, first.state, first.rest, later);
        let all = fed(state, unread, chunks);
        assert(all == seq![first] + fed(first.state, first.rest, later));
        assert(joined(chunks.take(0)) =~= Seq::<u8>::empty());
        assert(chunks.take(1) =~= seq![piece]);
        assert(joined(chunks.take(1)) =~= piece) by {
            assert(chunks.take(1).skip(1) =~= Seq::<Seq<u8>>::empty());
            assert(joined(chunks.take(1)) == piece + joined(chunks.take(1).skip(1)));
        }
        assert forall|k: int| 0 <= k < chunks.len() implies (#[trigger] all[k]).result == emitted(
            frame,
            arrived + arrived_after(chunks, k),
            arrived + arrived_after(chunks, k + 1),
        ) by {
            if k > 0 {
                assert(all[k] == fed(first.state, first.rest, later)[k - 1]);
                lemma_joined_take(chunks, k);
                lemma_joined_take(chunks, k + 1);
            }
        }
        if later.len() == 0 {
            assert(joined(later) =~= Seq::<u8>::empty());
            assert(all.last() == first);
        } else {
            assert(all.last() == fed(first.state, first.rest, later).last());
        }
    }
}

/// The first `k` pieces put together: the first piece, then the next `k - 1`.
proof fn lemma_joined_take(chunks: Seq<Seq<u8>>, k: int)
    requires
        0 < k <= chunks.len(),
    ensures
        joined(chunks.take(k)) == chunks[0] + joined(chunks.skip(1).take(k - 1)),
{
    assert(chunks.take(k).skip(1) =~= chunks.skip(1).take(k - 1));
}

/// A frame may arrive in any number of pieces of any sizes, empty ones too. With the
/// parser called after each piece, the call after the piece that completes the
/// frame emits the frame, and every other call emits nothing; after the last piece
/// the parser waits for the next header with nothing left unread. So the frame is
/// emitted exactly once, and it is the frame that arrives in one piece
/// ([`lemma_parse_framed`]).
pub proof fn lemma_fragmentation(frame: FrameView, chunks: Seq<Seq<u8>>)
    requires
        frame.payload.len() <= Frame::MAX_ADU_LENGTH,
        joined(chunks) == framed(frame),
    ensures
        fed(ParseState::AwaitingHeader, Seq::empty(), chunks).len() == chunks.len(),
        forall|k: int|
            0 <= k < chunks.len() ==> (#[trigger] fed(
                ParseState::AwaitingHeader,
                Seq::empty(),
                chunks,
            )[k]).result == emitted(frame, arrived_after(chunks, k), arrived_after(chunks, k + 1)),
        chunks.len() > 0 ==> fed(ParseState::AwaitingHeader, Seq::empty(), chunks).last().state
            == ParseState::AwaitingHeader && fed(
            ParseState::AwaitingHeader,
            Seq::empty(),
            chunks,
        ).last().rest == Seq::<u8>::empty(),
{
    assert(framed(frame).skip(0) =~= framed(frame));
    assert(framed(frame).take(0) =~= Seq::<u8>::empty());
    lemma_pieces(frame, 0, ParseState::AwaitingHeader, Seq::empty(), chunks);
}

/// What the parser makes of a frame that the formatter wrote. The formatter's length
/// field counts the unit identifier with the message; the parser takes the field for
/// the number of bytes behind the header. So the parser reads the transaction and
/// unit identifiers back, and then waits for one byte more than the message has: the
/// frame of a message alone yields no frame, and with one more byte behind it a frame
/// whose payload is the message and that byte. A message of the greatest length has
/// a length field that the parser refuses.
pub proof fn lemma_parse_formatted(tx_id: u16, unit_id: u8, message: Seq<u8>, next: u8)
    requires
        message.len() <= Frame::MAX_ADU_LENGTH,
    ensures
        message.len() < Frame::MAX_ADU_LENGTH ==> parse_spec(
            ParseState::AwaitingHeader,
            formatted(tx_id, unit_id, message),
        ) == (Parsed {
            state: ParseState::AwaitingBody(
                MBAPHeader { tx_id, length: (message.len() + 1) as u16, unit_id },
            ),
            rest: message,
            result: Ok(None),
        }),
        message.len() < Frame::MAX_ADU_LENGTH ==> parse_spec(
            ParseState::AwaitingHeader,
            formatted(tx_id, unit_id, message) + seq![next],
        ) == (Parsed {
            state: ParseState::AwaitingHeader,
            rest: Seq::empty(),
            result: Ok(Some(FrameView { unit_id, tx_id, payload: message + seq![next] })),
        }),
        message.len() == Frame::MAX_ADU_LENGTH ==> parse_spec(
            ParseState::AwaitingHeader,
            formatted(tx_id, unit_id, message),
        ).result == Err::<Option<FrameView>, Error>(
            Error::Frame(FrameError::BadLength((Frame::MAX_ADU_LENGTH + 1) as u16)),
        ),
{
    let header = MBAPHeader { tx_id, length: (message.len() + 1) as u16, unit_id };
    let image = formatted(tx_id, unit_id, message);
    lemma_be_u16_of_bytes(header.tx_id);
    lemma_be_u16_of_bytes(header.length);
    assert(image.skip(MBAP_HEADER_LENGTH as int) =~= message);
    if message.len() < Frame::MAX_ADU_LENGTH {
        let frame = FrameView { unit_id, tx_id, payload: message + seq![next] };
        assert(image + seq![next] =~= framed(frame) + Seq::<u8>::empty());
        lemma_parse_framed(frame, Seq::empty());
    }
}

} // verus!
