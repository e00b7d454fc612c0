//! What the engine needs to know of an operation of the protocol.

use crate::cursor::{WriteCursor, WriteCursorView};
use crate::error::Error;
use crate::format::Format;
use vstd::prelude::*;

verus! {

/// One operation of the protocol: its function code, its request and response
/// types, which requests are valid, and how a response is read. The engine never
/// looks into a request or a response itself.
pub trait Service {
    /// The function code that opens the operation's requests.
    const REQUEST_FUNCTION_CODE: u8;

    /// The request, which writes itself into a frame behind the function code.
    type Request: Format;

    type Response;

    /// The requests that may be sent.
    spec fn valid(request: &Self::Request) -> bool;

    /// Whether `request` may be sent.
    fn is_request_valid(request: &Self::Request) -> (valid: bool)
        ensures
            valid == Self::valid(request),
    ;

    /// Whether `response` is what the bytes `payload` say in answer to `request`:
    /// `None` where they are no response to it.
    spec fn reads(
        payload: Seq<u8>,
        request: &Self::Request,
        response: Option<Self::Response>,
    ) -> bool;

    /// Reads a response from the bytes that follow the function code, given the
    /// request that it answers.
    fn parse_response(payload: &[u8], request: &Self::Request) -> (response: Option<
        Self::Response,
    >)
        ensures
            Self::reads(payload@, request, response),
    ;
}

/// The function code of `S`, then the bytes of `request`.
pub open spec fn pdu<S: Service>(request: &S::Request) -> Seq<u8> {
    seq![S::REQUEST_FUNCTION_CODE] + request.wire()
}

/// A request of the service `S` as the message of a frame.
pub struct Pdu<'a, S: Service> {
    pub request: &'a S::Request,
}

impl<'a, S: Service> Format for Pdu<'a, S> {
    open spec fn wire(&self) -> Seq<u8> {
        pdu::<S>(self.request)
    }

    /// The function code is refused with [`Error::Serialization`] where there is no
    /// room for it. Behind it, what comes of the request is for the request to
    /// decide.
    open spec fn outcome(&self, cursor: WriteCursorView) -> Result<(), Error> {
        if cursor.fits(1) {
            self.request.outcome(cursor.put(seq![S::REQUEST_FUNCTION_CODE]))
        } else {
            Err(Error::Serialization)
        }
    }

    /// Writes the function code, then the request.
    fn format<const N: usize>(&self, cursor: &mut WriteCursor<N>) -> (r: Result<(), Error>) {
        cursor.write_u8(S::REQUEST_FUNCTION_CODE)?;
        let r = self.request.format(cursor);
        proof {
            if r is Ok {
                assert(cursor@.bytes =~= old(cursor)@.put(self.wire()).bytes);
            }
        }
        r
    }
}

/// Checks a request before it is handed to the channel: an invalid one is refused
/// here and never reaches the wire.
pub fn validate<S: Service>(request: &S::Request) -> (r: Result<(), Error>)
    ensures
        S::valid(request) ==> r is Ok,
        !S::valid(request) ==> r == Err::<(), Error>(Error::Validation),
{
    if S::is_request_valid(request) {
        Ok(())
    } else {
        Err(Error::Validation)
    }
}

} // verus!
