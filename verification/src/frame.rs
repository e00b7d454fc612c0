use vstd::prelude::*;

verus! {

/// What a [`Frame`] stands for: one message, without the bytes of its header.
pub struct FrameView {
    pub unit_id: u8,
    pub tx_id: u16,
    pub payload: Seq<u8>,
}

/// One protocol message: the device it is for or from, the transaction it belongs
/// to, and its payload, which is never longer than [`Frame::MAX_ADU_LENGTH`].
pub struct Frame {
    unit_id: u8,
    tx_id: u16,
    length: usize,
    adu: [u8; Frame::MAX_ADU_LENGTH],
}

impl View for Frame {
    type V = FrameView;

    closed spec fn view(&self) -> FrameView {
        FrameView {
            unit_id: self.unit_id,
            tx_id: self.tx_id,
            payload: self.adu@.take(self.length as int),
        }
    }
}

impl Frame {
    /// The largest payload that a frame can carry.
    pub const MAX_ADU_LENGTH: usize = 253;

    #[verifier::type_invariant]
    spec fn well_formed(&self) -> bool {
        self.length <= Frame::MAX_ADU_LENGTH
    }

    /// A frame with an empty payload.
    pub fn new(unit_id: u8, tx_id: u16) -> (frame: Frame)
        ensures
            frame@ == (FrameView { unit_id, tx_id, payload: Seq::empty() }),
    {
        let frame = Frame { unit_id, tx_id, length: 0, adu: [0; Frame::MAX_ADU_LENGTH] };
        assert(frame@.payload =~= Seq::<u8>::empty());
        frame
    }

    /// Replaces the payload by a copy of `payload`, if that is short enough.
    /// Returns whether it was.
    pub fn set(&mut self, payload: &[u8]) -> (stored: bool)
        ensures
            stored == (payload@.len() <= Frame::MAX_ADU_LENGTH),
            stored ==> final(self)@ == (FrameView { payload: payload@, ..old(self)@ }),
            !stored ==> final(self)@ == old(self)@,
    {
        if payload.len() > Frame::MAX_ADU_LENGTH {
            return false;
        }
        self.length = 0;
        let mut copied: usize = 0;
        while copied < payload.len()
            invariant
                copied <= payload@.len() <= Frame::MAX_ADU_LENGTH,
                self.length == 0,
                self.unit_id == old(self).unit_id,
                self.tx_id == old(self).tx_id,
                self.adu@.take(copied as int) == payload@.take(copied as int),
            decreases payload@.len() - copied,
        {
            self.adu[copied] = payload[copied];
            copied = copied + 1;
            assert(self.adu@.take(copied as int) =~= payload@.take(copied as int));
        }
        self.length = copied;
        assert(payload@.take(copied as int) =~= payload@);
        true
    }

    /// The device that the message is for or from.
    pub fn unit_id(&self) -> (unit_id: u8)
        ensures
            unit_id == self@.unit_id,
    {
        self.unit_id
    }

    /// The transaction that the message belongs to.
    pub fn tx_id(&self) -> (tx_id: u16)
        ensures
            tx_id == self@.tx_id,
    {
        self.tx_id
    }

    /// The payload, which is never longer than the limit.
    pub fn payload(&self) -> (payload: &[u8])
        ensures
            payload@ == self@.payload,
            payload@.len() <= Frame::MAX_ADU_LENGTH,
    {
        proof {
            use_type_invariant(self);
        }
        vstd::slice::slice_subrange(self.adu.as_slice(), 0, self.length)
    }
}

} // verus!
