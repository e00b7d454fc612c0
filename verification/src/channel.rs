//! The channel engine: the decisions that carry one request at a time over one
//! connection. The engine does no input or output itself. Its driver tells it what
//! happened, and the engine answers with what to do next: connect, write the frame
//! of the request, read so many bytes, or fill the caller's reply slot.
//!
//! Transaction identifiers count up from zero, one for each frame that the engine
//! asks to write, and wrap around behind the largest.

use crate::cursor::ReadBuffer;
use crate::error::Error;
use crate::format::Format;
use crate::frame::Frame;
use crate::mbap::{
    begun, formatted, parse_spec, MBAPFormatter, MBAPParser, ParseState, MAX_MBAP_FRAME_LENGTH,
    MBAP_HEADER_LENGTH,
};
use crate::service::{pdu, Pdu, Service};
use vstd::prelude::*;

verus! {

/// How far the request in flight has got.
#[derive(Clone, Copy, Debug, PartialEq, Eq, Structural)]
pub enum Stage {
    /// No request is in flight.
    Idle,
    /// The driver was asked to connect.
    Connecting,
    /// The driver was asked to write the frame of the request.
    Writing,
    /// The driver was asked to read a part of the response.
    Reading,
}

/// What the driver reports to the engine.
pub enum Event<'a> {
    /// The next request was taken from the queue.
    Request,
    /// The connection was established.
    Connected,
    /// The connection could not be established.
    ConnectFailed,
    /// The frame was written.
    Written,
    /// The frame could not be written.
    WriteFailed,
    /// The bytes that were asked for were read.
    Received(&'a [u8]),
    /// The bytes that were asked for could not be read.
    ReadFailed,
}

/// An [`Event`] in contracts.
pub enum Occurrence {
    Request,
    Connected,
    ConnectFailed,
    Written,
    WriteFailed,
    Received(Seq<u8>),
    ReadFailed,
}

impl<'a> View for Event<'a> {
    type V = Occurrence;

    open spec fn view(&self) -> Occurrence {
        match *self {
            Event::Request => Occurrence::Request,
            Event::Connected => Occurrence::Connected,
            Event::ConnectFailed => Occurrence::ConnectFailed,
            Event::Written => Occurrence::Written,
            Event::WriteFailed => Occurrence::WriteFailed,
            Event::Received(bytes) => Occurrence::Received(bytes@),
            Event::ReadFailed => Occurrence::ReadFailed,
        }
    }
}

/// What the engine asks of its driver.
pub enum Action<R> {
    /// Take the next request from the queue, and report [`Event::Request`].
    Dequeue,
    /// Establish the connection.
    Connect,
    /// Write the bytes of [`ChannelEngine::outgoing`] to the connection.
    Write,
    /// Read exactly this many bytes from the connection.
    Read(usize),
    /// Fill the reply slot of the request in flight, and drop the connection if the
    /// engine is no longer connected. The engine is idle again.
    Reply(Result<R, Error>),
}

/// An [`Action`] in contracts: a reply without the response that it carries.
pub enum Decision {
    Dequeue,
    Connect,
    Write,
    Read(nat),
    Reply(Result<(), Error>),
}

impl<R> Action<R> {
    pub open spec fn decision(self) -> Decision {
        match self {
            Action::Dequeue => Decision::Dequeue,
            Action::Connect => Decision::Connect,
            Action::Write => Decision::Write,
            Action::Read(count) => Decision::Read(count as nat),
            Action::Reply(Ok(_)) => Decision::Reply(Ok(())),
            Action::Reply(Err(e)) => Decision::Reply(Err(e)),
        }
    }
}

/// What the engine knows between two events.
pub struct EngineView {
    /// Whether the driver holds a live connection.
    pub connected: bool,
    pub stage: Stage,
    /// The transaction identifier of the next frame.
    pub tx_id: u16,
    /// While reading: how far the response has been parsed.
    pub parser: ParseState,
    /// While writing: the frame of the request.
    pub outgoing: Seq<u8>,
}

/// The engine and what it asks for after an event.
pub struct Turn {
    pub next: EngineView,
    pub decision: Decision,
}

/// The transaction identifier that follows `tx_id`.
pub open spec fn next_tx_id(tx_id: u16) -> u16 {
    if tx_id == u16::MAX {
        0
    } else {
        (tx_id + 1) as u16
    }
}

/// The engine at rest.
pub open spec fn idle(connected: bool, tx_id: u16) -> EngineView {
    EngineView {
        connected,
        stage: Stage::Idle,
        tx_id,
        parser: ParseState::AwaitingHeader,
        outgoing: Seq::empty(),
    }
}

/// What the engine asks for again when an event answers nothing that it asked for.
pub open spec fn pending(engine: EngineView) -> Decision {
    match engine.stage {
        Stage::Idle => Decision::Dequeue,
        Stage::Connecting => Decision::Connect,
        Stage::Writing => Decision::Write,
        Stage::Reading => Decision::Read(engine.parser.wanted()),
    }
}

/// The request in flight fails on the transport: the caller gets the error, and the
/// connection is given up.
pub open spec fn failed(engine: EngineView, error: Error) -> Turn {
    Turn { next: idle(false, engine.tx_id), decision: Decision::Reply(Err(error)) }
}

/// The request in flight ends with or without a response that its service could
/// read: with one the caller gets it and the connection stays; without one the
/// request fails as a failed read does.
pub open spec fn concluded(engine: EngineView, understood: bool) -> Turn {
    if understood {
        Turn { next: idle(engine.connected, engine.tx_id), decision: Decision::Reply(Ok(())) }
    } else {
        failed(engine, Error::Rx)
    }
}

/// The connection stands and the request is formatted. A request whose frame could
/// be formatted is written next, under the engine's transaction identifier; one
/// whose frame could not fails without touching the connection.
pub open spec fn sent(engine: EngineView, unit_id: u8, message: Seq<u8>, formats: bool) -> Turn {
    if formats {
        Turn {
            next: EngineView {
                connected: true,
                stage: Stage::Writing,
                tx_id: next_tx_id(engine.tx_id),
                parser: ParseState::AwaitingHeader,
                outgoing: formatted(engine.tx_id, unit_id, message),
            },
            decision: Decision::Write,
        }
    } else {
        Turn {
            next: idle(true, engine.tx_id),
            decision: Decision::Reply(Err(Error::Serialization)),
        }
    }
}

/// A part of the response has been read. Other than the number of bytes asked for is
/// a failed read, and so is a header that the parser refuses. Behind a header the
/// engine asks for the body that it announces. A frame ends the request: one with an
/// empty payload has no function code and fails; of any other the service reads
/// what follows the function code.
pub open spec fn received(engine: EngineView, bytes: Seq<u8>, understood: bool) -> Turn {
    if bytes.len() != engine.parser.wanted() {
        failed(engine, Error::Rx)
    } else {
        let parsed = parse_spec(engine.parser, bytes);
        match parsed.result {
            Err(_) => failed(engine, Error::Rx),
            Ok(None) => Turn {
                next: EngineView { parser: parsed.state, ..engine },
                decision: Decision::Read(parsed.state.wanted()),
            },
            Ok(Some(frame)) => concluded(engine, frame.payload.len() > 0 && understood),
        }
    }
}

/// What the engine does on an event. `message` is the request in flight as the
/// message of a frame. Two things are for the request's service to decide, and the
/// engine goes by what came of them: `formats`, whether the request could be written
/// into a frame, and `understood`, whether the service could read the response.
/// An event that answers nothing that the engine asked for changes nothing, and the
/// engine asks again.
pub open spec fn transition(
    engine: EngineView,
    event: Occurrence,
    unit_id: u8,
    message: Seq<u8>,
    formats: bool,
    understood: bool,
) -> Turn {
    match (engine.stage, event) {
        (Stage::Idle, Occurrence::Request) => if engine.connected {
            sent(engine, unit_id, message, formats)
        } else {
            Turn {
                next: EngineView { stage: Stage::Connecting, ..engine },
                decision: Decision::Connect,
            }
        },
        (Stage::Connecting, Occurrence::Connected) => sent(engine, unit_id, message, formats),
        (Stage::Connecting, Occurrence::ConnectFailed) => failed(engine, Error::Connect),
        (Stage::Writing, Occurrence::Written) => Turn {
            next: EngineView {
                stage: Stage::Reading,
                parser: ParseState::AwaitingHeader,
                outgoing: Seq::empty(),
                ..engine
            },
            decision: Decision::Read(MBAP_HEADER_LENGTH as nat),
        },
        (Stage::Writing, Occurrence::WriteFailed) => failed(engine, Error::Tx),
        (Stage::Reading, Occurrence::Received(bytes)) => received(engine, bytes, understood),
        (Stage::Reading, Occurrence::ReadFailed) => failed(engine, Error::Rx),
        _ => Turn { next: engine, decision: pending(engine) },
    }
}

/// Whether a request of the service `S` can be written into a frame in the scratch
/// buffer `scratch`: whether the function code and the request write themselves
/// behind the header. With room for the function code that is for the request to
/// decide.
pub open spec fn writable<S: Service>(
    scratch: Seq<u8>,
    transaction_id: u16,
    id: u8,
    req: &S::Request,
) -> bool {
    (Pdu::<S> { request: req }).outcome(begun(scratch, transaction_id, id)) is Ok
}

/// Formats the frame of a request of the service `S`: the header, the function code
/// of `S`, then the request. This succeeds exactly where the request is
/// [`writable`], and the frame is then as [`formatted`] says. Whatever keeps the
/// request from being written is reported as [`Error::Serialization`].
pub fn write_request<'a, S: Service>(
    formatter: &'a mut MBAPFormatter,
    id: u8,
    transaction_id: u16,
    req: &S::Request,
) -> (r: Result<&'a [u8], Error>)
    ensures
        r is Ok <==> writable::<S>(old(formatter)@.bytes, transaction_id, id, req),
        r matches Ok(bytes) ==> bytes@ == formatted(transaction_id, id, pdu::<S>(req)) && bytes@
            == final(formatter)@.written(),
        r matches Err(e) ==> e == Error::Serialization,
        final(formatter)@.bytes.len() == MAX_MBAP_FRAME_LENGTH,
{
    let message: Pdu<'_, S> = Pdu { request: req };
    match formatter.format(transaction_id, id, &message) {
        Ok(bytes) => Ok(bytes),
        Err(_) => Err(Error::Serialization),
    }
}

/// Hands the payload of a response, without its function code, to the service `S`,
/// together with the request. A frame with an empty payload has no function code,
/// and is no response.
pub fn decode_response<S: Service>(frame: &Frame, request: &S::Request) -> (r: Option<S::Response>)
    ensures
        frame@.payload.len() == 0 ==> r is None,
        frame@.payload.len() > 0 ==> S::reads(frame@.payload.skip(1), request, r),
{
    let payload = frame.payload();
    if payload.len() == 0 {
        return None;
    }
    assert(payload@.subrange(1, payload@.len() as int) =~= payload@.skip(1));
    S::parse_response(vstd::slice::slice_subrange(payload, 1, payload.len()), request)
}

/// The decisions of one channel.
pub struct ChannelEngine {
    connected: bool,
    stage: Stage,
    tx_id: u16,
    formatter: MBAPFormatter,
    parser: MBAPParser,
    input: ReadBuffer,
}

impl View for ChannelEngine {
    type V = EngineView;

    closed spec fn view(&self) -> EngineView {
        EngineView {
            connected: self.connected,
            stage: self.stage,
            tx_id: self.tx_id,
            parser: if self.stage == Stage::Reading {
                self.parser@
            } else {
                ParseState::AwaitingHeader
            },
            outgoing: if self.stage == Stage::Writing {
                self.formatter@.written()
            } else {
                Seq::empty()
            },
        }
    }
}

impl ChannelEngine {
    /// The scratch buffer in which the engine formats its frames, whatever it holds.
    /// It is as large as the longest frame.
    pub closed spec fn scratch(&self) -> Seq<u8> {
        self.formatter@.bytes
    }

    /// An engine without a connection and without a request.
    pub fn new() -> (engine: ChannelEngine)
        ensures
            engine@ == idle(false, 0),
            engine.scratch().len() == MAX_MBAP_FRAME_LENGTH,
    {
        ChannelEngine {
            connected: false,
            stage: Stage::Idle,
            tx_id: 0,
            formatter: MBAPFormatter::new(),
            parser: MBAPParser::new(),
            input: ReadBuffer::new(),
        }
    }

    /// Whether the driver is to hold a live connection.
    pub fn is_connected(&self) -> (connected: bool)
        ensures
            connected == self@.connected,
    {
        self.connected
    }

    /// How far the request in flight has got.
    pub fn stage(&self) -> (stage: Stage)
        ensures
            stage == self@.stage,
    {
        self.stage
    }

    /// The frame that the driver is to write: empty unless the engine asked for that.
    pub fn outgoing(&self) -> (bytes: &[u8])
        ensures
            bytes@ == self@.outgoing,
    {
        match self.stage {
            Stage::Writing => self.formatter.frame(),
            _ => {
                let bytes = self.formatter.frame();
                vstd::slice::slice_subrange(bytes, 0, 0)
            },
        }
    }

    /// Takes an event that concerns the request `request` of the service `S` for the
    /// unit `unit_id`, and says what to do next: see [`transition`]. The request is
    /// written exactly where it is [`writable`] into the engine's scratch buffer
    /// under the engine's transaction identifier. Of a frame received, the service
    /// reads the payload behind the function code: the reply carries the response
    /// that it reads there, and the request fails where it reads none.
    pub fn step<S: Service>(
        &mut self,
        unit_id: u8,
        request: &S::Request,
        event: Event<'_>,
    ) -> (action: Action<S::Response>)
        ensures
            final(self)@ == transition(
                old(self)@,
                event@,
                unit_id,
                pdu::<S>(request),
                writable::<S>(old(self).scratch(), old(self)@.tx_id, unit_id, request),
                action matches Action::Reply(Ok(_)),
            ).next,
            action.decision() == transition(
                old(self)@,
                event@,
                unit_id,
                pdu::<S>(request),
                writable::<S>(old(self).scratch(), old(self)@.tx_id, unit_id, request),
                action matches Action::Reply(Ok(_)),
            ).decision,
            old(self)@.stage == Stage::Reading ==> (event@ matches Occurrence::Received(bytes)
                ==> (bytes.len() == old(self)@.parser.wanted() ==> (parse_spec(
                old(self)@.parser,
                bytes,
            ).result matches Ok(Some(frame)) ==> (frame.payload.len() > 0 ==> S::reads(
                frame.payload.skip(1),
                request,
                match action {
                    Action::Reply(Ok(response)) => Some(response),
                    _ => None,
                },
            ))))),
            final(self).scratch().len() == MAX_MBAP_FRAME_LENGTH,
    {
        proof {
            self.formatter.lemma_scratch_length();
        }
        match self.stage {
            Stage::Idle => match event {
                Event::Request => if self.connected {
                    self.send::<S>(unit_id, request)
                } else {
                    self.stage = Stage::Connecting;
                    Action::Connect
                },
                _ => Action::Dequeue,
            },
            Stage::Connecting => match event {
                Event::Connected => {
                    self.connected = true;
                    self.send::<S>(unit_id, request)
                },
                Event::ConnectFailed => self.fail(Error::Connect),
                _ => Action::Connect,
            },
            Stage::Writing => match event {
                Event::Written => {
                    self.parser = MBAPParser::new();
                    self.stage = Stage::Reading;
                    Action::Read(MBAP_HEADER_LENGTH)
                },
                Event::WriteFailed => self.fail(Error::Tx),
                _ => Action::Write,
            },
            Stage::Reading => match event {
                Event::Received(bytes) => {
                    if bytes.len() != self.parser.wanted() {
                        return self.fail(Error::Rx);
                    }
                    self.input.clear();
                    self.input.extend(bytes);
                    assert(self.input@ =~= bytes@);
                    match self.parser.parse(&mut self.input) {
                        Err(_) => self.fail(Error::Rx),
                        Ok(None) => Action::Read(self.parser.wanted()),
                        Ok(Some(frame)) => {
                            let parsed = decode_response::<S>(&frame, request);
                            self.conclude(parsed)
                        },
                    }
                },
                Event::ReadFailed => self.fail(Error::Rx),
                _ => Action::Read(self.parser.wanted()),
            },
        }
    }

    /// Ends the request in flight with what its service made of the response: see
    /// [`concluded`].
    pub fn conclude<R>(&mut self, parsed: Option<R>) -> (action: Action<R>)
        ensures
            final(self)@ == concluded(old(self)@, parsed is Some).next,
            action.decision() == concluded(old(self)@, parsed is Some).decision,
            parsed matches Some(response) ==> action == Action::Reply(Ok::<R, Error>(response)),
            final(self).scratch() == old(self).scratch(),
    {
        match parsed {
            Some(response) => {
                self.stage = Stage::Idle;
                Action::Reply(Ok(response))
            },
            None => self.fail(Error::Rx),
        }
    }

    /// Formats the request and asks to write it.
    fn send<S: Service>(&mut self, unit_id: u8, request: &S::Request) -> (action: Action<
        S::Response,
    >)
        requires
            old(self).connected,
        ensures
            final(self)@ == sent(
                old(self)@,
                unit_id,
                pdu::<S>(request),
                writable::<S>(old(self).scratch(), old(self)@.tx_id, unit_id, request),
            ).next,
            action.decision() == sent(
                old(self)@,
                unit_id,
                pdu::<S>(request),
                writable::<S>(old(self).scratch(), old(self)@.tx_id, unit_id, request),
            ).decision,
            final(self).scratch().len() == MAX_MBAP_FRAME_LENGTH,
    {
        match write_request::<S>(&mut self.formatter, unit_id, self.tx_id, request) {
            Ok(_) => {
                self.tx_id = if self.tx_id == u16::MAX {
                    0
                } else {
                    self.tx_id + 1
                };
                self.stage = Stage::Writing;
                Action::Write
            },
            Err(e) => {
                self.stage = Stage::Idle;
                Action::Reply(Err(e))
            },
        }
    }

    /// Gives up the connection and reports `error` to the caller.
    fn fail<R>(&mut self, error: Error) -> (action: Action<R>)
        ensures
            final(self)@ == failed(old(self)@, error).next,
            action == Action::Reply(Err::<R, Error>(error)),
            final(self).scratch() == old(self).scratch(),
    {
        self.connected = false;
        self.stage = Stage::Idle;
        Action::Reply(Err(error))
    }
}

} // verus!
