//! The operation that reads a run of discrete inputs, one bit each.

use crate::service::Service;
use crate::types::{AddressRange, Indexed};
use vstd::prelude::*;

verus! {

/// The function code of the operation.
pub const READ_DISCRETE_INPUTS: u8 = 0x02;

/// Reads the state of the discrete inputs in a range of addresses.
pub struct ReadDiscreteInputs;

/// The number of bytes that hold `count` bits, eight to a byte.
pub open spec fn bytes_for_bits(count: u16) -> int {
    (count + 7) / 8
}

/// Bit `position` of the bits packed in `data`: bits fill each byte from its least
/// significant bit upwards.
pub open spec fn packed_bit(data: Seq<u8>, position: int) -> bool {
    (data[position / 8] >> ((position % 8) as u8)) & 1 == 1
}

/// Whether `payload` answers a request for the bits of `request`: the request is
/// valid, the first byte counts the bytes behind it, and these are as many as hold
/// the bits asked for.
pub open spec fn answers(payload: Seq<u8>, request: AddressRange) -> bool {
    &&& request.valid_for_bits()
    &&& payload.len() >= 1
    &&& payload[0] == bytes_for_bits(request.count)
    &&& payload.len() == 1 + bytes_for_bits(request.count)
}

impl Service for ReadDiscreteInputs {
    const REQUEST_FUNCTION_CODE: u8 = READ_DISCRETE_INPUTS;

    type Request = AddressRange;

    type Response = Vec<Indexed<bool>>;

    open spec fn valid(request: &AddressRange) -> bool {
        request.valid_for_bits()
    }

    fn is_request_valid(request: &AddressRange) -> (valid: bool) {
        request.is_valid_for_bits()
    }

    /// A payload that answers the request gives one value for each address of the
    /// range, in the order of the addresses; any other payload gives `None`.
    open spec fn reads(
        payload: Seq<u8>,
        request: &AddressRange,
        response: Option<Vec<Indexed<bool>>>,
    ) -> bool {
        &&& response is Some <==> answers(payload, *request)
        &&& response matches Some(values) ==> {
            &&& values@.len() == request.count
            &&& forall|i: int|
                0 <= i < request.count ==> (#[trigger] values@[i]).index == request.start + i
                    && values@[i].value == packed_bit(payload.skip(1), i)
        }
    }

    fn parse_response(payload: &[u8], request: &AddressRange) -> (response: Option<
        Vec<Indexed<bool>>,
    >) {
        if !request.is_valid_for_bits() || payload.len() < 1 {
            return None;
        }
        let byte_count: usize = (request.count as usize + 7) / 8;
        if payload[0] as usize != byte_count || payload.len() != 1 + byte_count {
            return None;
        }
        let mut values: Vec<Indexed<bool>> = Vec::new();
        let mut position: u16 = 0;
        while position < request.count
            invariant
                position <= request.count,
                request.valid_for_bits(),
                payload@.len() == 1 + bytes_for_bits(request.count),
                values@.len() == position,
                forall|i: int|
                    0 <= i < position ==> (#[trigger] values@[i]).index == request.start + i
                        && values@[i].value == packed_bit(payload@.skip(1), i),
            decreases request.count - position,
        {
            let byte = payload[1 + (position / 8) as usize];
            let value = (byte >> ((position % 8) as u8)) & 1 == 1;
            assert(byte == payload@.skip(1)[position as int / 8]);
            values.push(Indexed { index: request.start + position, value });
            position = position + 1;
        }
        Some(values)
    }
}

} // verus!
