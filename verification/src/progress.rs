//! What holds of the channel engine over every run: a failure in flight costs the
//! connection and nothing else, and every request gets exactly one reply, in the
//! order in which the requests were taken up.

use crate::channel::{
    failed, idle, next_tx_id, transition, Decision, EngineView, Occurrence, Stage, Turn,
};
use crate::error::Error;
use crate::frame::{Frame, FrameView};
use crate::framing::lemma_decode_header_bytes;
use crate::mbap::{formatted, header_bytes, MBAPHeader, MBAP_HEADER_LENGTH};
use vstd::prelude::*;

verus! {

/// One event, with the request that it concerns and what the request's service
/// decides: see [`transition`].
pub struct Input {
    pub event: Occurrence,
    pub unit_id: u8,
    pub message: Seq<u8>,
    pub formats: bool,
    pub understood: bool,
}

/// What the engine does on `input`.
pub open spec fn turn(engine: EngineView, input: Input) -> Turn {
    transition(
        engine,
        input.event,
        input.unit_id,
        input.message,
        input.formats,
        input.understood,
    )
}

/// The engine after `inputs`, in their order.
pub open spec fn run(start: EngineView, inputs: Seq<Input>) -> EngineView
    decreases inputs.len(),
{
    if inputs.len() == 0 {
        start
    } else {
        turn(run(start, inputs.drop_last()), inputs.last()).next
    }
}

/// The number of requests that the engine has taken up in `inputs`: the reports of
/// a request that found it idle.
pub open spec fn accepted(start: EngineView, inputs: Seq<Input>) -> nat
    decreases inputs.len(),
{
    if inputs.len() == 0 {
        0
    } else {
        let before = run(start, inputs.drop_last());
        accepted(start, inputs.drop_last()) + if before.stage == Stage::Idle
            && inputs.last().event is Request {
            1nat
        } else {
            0nat
        }
    }
}

/// The number of replies that the engine has asked for in `inputs`.
pub open spec fn replied(start: EngineView, inputs: Seq<Input>) -> nat
    decreases inputs.len(),
{
    if inputs.len() == 0 {
        0
    } else {
        let before = run(start, inputs.drop_last());
        replied(start, inputs.drop_last()) + if turn(before, inputs.last()).decision is Reply {
            1nat
        } else {
            0nat
        }
    }
}

/// A write or a read that fails, and a response whose header the parser refuses, end
/// the request in flight with one error for its caller: the write with
/// [`Error::Tx`], the others with [`Error::Rx`]. The engine is idle and without a
/// connection afterwards, so that the next request connects anew
/// ([`lemma_exchange`]).
pub proof fn lemma_failure_in_flight(engine: EngineView, input: Input)
    ensures
        engine.stage == Stage::Writing && input.event is WriteFailed ==> turn(engine, input)
            == failed(engine, Error::Tx),
        engine.stage == Stage::Reading && input.event is ReadFailed ==> turn(engine, input)
            == failed(engine, Error::Rx),
        engine.stage == Stage::Reading && input.event is Received
            && input.event->Received_0.len() != engine.parser.wanted() ==> turn(engine, input)
            == failed(engine, Error::Rx),
        engine.stage == Stage::Connecting && input.event is ConnectFailed ==> turn(engine, input)
            == failed(engine, Error::Connect),
        forall|error: Error|
            (#[trigger] failed(engine, error)) == (Turn {
                next: idle(false, engine.tx_id),
                decision: Decision::Reply(Err(error)),
            }),
{
}

/// A request that meets no failure, from an idle engine with or without a
/// connection. Without one the engine asks to connect first. Then it asks to write
/// the frame of the request under its transaction identifier, to read a header, to
/// read the body that the header announces, and, the response understood, to reply
/// with it. It is idle and connected afterwards, its transaction identifier moved
/// on by one.
pub proof fn lemma_exchange(
    connected: bool,
    tx_id: u16,
    unit_id: u8,
    message: Seq<u8>,
    response: FrameView,
)
    requires
        0 < response.payload.len() <= Frame::MAX_ADU_LENGTH,
    ensures
        ({
            let request = Input {
                event: Occurrence::Request,
                unit_id,
                message,
                formats: true,
                understood: true,
            };
            let header = MBAPHeader {
                tx_id: response.tx_id,
                length: response.payload.len() as u16,
                unit_id: response.unit_id,
            };
            let start = idle(connected, tx_id);
            let taken = turn(start, request);
            let ready = if connected {
                taken
            } else {
                turn(taken.next, Input { event: Occurrence::Connected, ..request })
            };
            let written = turn(ready.next, Input { event: Occurrence::Written, ..request });
            let headed = turn(
                written.next,
                Input { event: Occurrence::Received(header_bytes(header)), ..request },
            );
            let done = turn(
                headed.next,
                Input { event: Occurrence::Received(response.payload), ..request },
            );
            &&& !connected ==> taken.decision == Decision::Connect
            &&& ready.decision == Decision::Write
            &&& ready.next.outgoing == formatted(tx_id, unit_id, message)
            &&& written.decision == Decision::Read(MBAP_HEADER_LENGTH as nat)
            &&& headed.decision == Decision::Read(response.payload.len())
            &&& done.decision == Decision::Reply(Ok(()))
            &&& done.next == idle(true, next_tx_id(tx_id))
        }),
{
    let header = MBAPHeader {
        tx_id: response.tx_id,
        length: response.payload.len() as u16,
        unit_id: response.unit_id,
    };
    lemma_decode_header_bytes(header, Seq::empty());
    assert(header_bytes(header) + Seq::<u8>::empty() =~= header_bytes(header));
    assert(header_bytes(header).skip(MBAP_HEADER_LENGTH as int) =~= Seq::<u8>::empty());
    assert(response.payload.take(header.length as int) =~= response.payload);
}

/// One step of a run.
proof fn lemma_turn(engine: EngineView, input: Input)
    ensures
        turn(engine, input).decision is Reply <==> turn(engine, input).next.stage == Stage::Idle
            && (engine.stage != Stage::Idle || input.event is Request),
{
}

/// Every request gets exactly one reply. In a run from an idle engine, the replies
/// asked for so far are as many as the requests taken up so far, less the one in
/// flight: a request is taken up only by an idle engine, and the engine is idle
/// again exactly when it has asked for the reply.
pub proof fn lemma_one_reply_per_request(start: EngineView, inputs: Seq<Input>)
    requires
        start.stage == Stage::Idle,
    ensures
        accepted(start, inputs) == replied(start, inputs) + if run(start, inputs).stage
            == Stage::Idle {
            0nat
        } else {
            1nat
        },
    decreases inputs.len(),
{
    if inputs.len() > 0 {
        lemma_one_reply_per_request(start, inputs.drop_last());
        lemma_turn(run(start, inputs.drop_last()), inputs.last());
    }
}

/// Replies come in the order of the requests. When the engine asks for a reply, as
/// many requests have been taken up as replies asked for, this one counted: so the
/// reply is for the request taken up last, and no later request was taken up before
/// it.
pub proof fn lemma_replies_in_order(start: EngineView, inputs: Seq<Input>)
    requires
        start.stage == Stage::Idle,
        inputs.len() > 0,
        turn(run(start, inputs.drop_last()), inputs.last()).decision is Reply,
    ensures
        replied(start, inputs) == accepted(start, inputs),
{
    lemma_one_reply_per_request(start, inputs);
    lemma_turn(run(start, inputs.drop_last()), inputs.last());
}

} // verus!
