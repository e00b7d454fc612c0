use vstd::prelude::*;

verus! {

/// A frame header that breaks the rules of the wire format.
#[derive(Clone, Copy, Debug, PartialEq, Eq, Structural)]
pub enum FrameError {
    /// The protocol identifier field holds this value instead of zero.
    UnknownProtocolId(u16),
    /// The length field holds this value, which is more than a frame may carry.
    BadLength(u16),
}

/// Everything that can go wrong between a caller's request and its reply.
#[derive(Clone, Copy, Debug, PartialEq, Eq, Structural)]
pub enum Error {
    /// The request failed its own validity check and was never sent.
    Validation,
    /// The transport connection could not be established.
    Connect,
    /// Writing the request to the connection failed.
    Tx,
    /// Reading the response failed, or the response could not be decoded.
    Rx,
    /// What was to be written does not fit into the space that there is for it.
    Serialization,
    /// Fewer bytes are buffered than a read asked for.
    InsufficientBytes,
    /// The frame header is malformed.
    Frame(FrameError),
}

} // verus!
