//! Frames out of a stream of bytes that comes in pieces.
use crate::codec::bytes::{be_value, lemma_be_value_bound, lemma_pow256_values};
use crate::codec::decode::{Decode, DecodeError};
use crate::proto::data::{FrameType, Header};
use vstd::prelude::*;

verus! {

/// The bytes in front of every frame: one for its type, four for the length of its body.
pub const HEADER_SIZE: usize = 5;

/// Max TCP packet size is 65535
pub const MAX_TCP_PACKET_SIZE: usize = 65535;

/// One whole frame as it came off the wire, header included, and its type.
pub struct Message {
    pub ty: FrameType,
    pub buffer: Vec<u8>,
}

/// What the front of the buffered bytes holds.
pub enum PartMessage {
    /// Less than a whole frame: more bytes have to come in first.
    InsufficientData,
    /// A whole frame, taken out of the buffer.
    Message(Message),
}

/// The bytes that came in and were not yet taken out as frames.
pub struct InputBuffer {
    data: Vec<u8>,
}

/// How long the frame in front of `buffered` is, header included; `None` where `buffered`
/// does not yet hold all of it.
pub open spec fn next_frame_len(buffered: Seq<u8>) -> Option<nat> {
    if buffered.len() < HEADER_SIZE {
        None
    } else {
        let size = be_value(buffered.subrange(1, HEADER_SIZE as int));
        if buffered.len() - HEADER_SIZE >= size {
            Some((HEADER_SIZE + size) as nat)
        } else {
            None
        }
    }
}

impl View for InputBuffer {
    type V = Seq<u8>;

    /// The bytes buffered, oldest first.
    closed spec fn view(&self) -> Seq<u8> {
        self.data@
    }
}

impl Default for InputBuffer {
    /// A buffer without any bytes.
    fn default() -> (buffer: Self)
        ensures
            buffer@ == Seq::<u8>::empty(),
    {
        InputBuffer { data: Vec::new() }
    }
}

impl InputBuffer {
    /// A buffer without any bytes.
    pub fn new() -> (buffer: Self)
        ensures
            buffer@ == Seq::<u8>::empty(),
    {
        InputBuffer { data: Vec::new() }
    }

    /// Append `data`, which came in after all that is buffered.
    pub fn input_data(&mut self, data: &[u8])
        ensures
            final(self)@ == old(self)@ + data@,
    {
        self.data.extend_from_slice(data);
    }

    /// Take the frame in front of the buffer out of it, if all of it is there. The bytes
    /// behind it stay, and so does everything where the frame is not yet whole.
    pub fn next_message(&mut self) -> (r: Result<PartMessage, DecodeError>)
        ensures
            match next_frame_len(old(self)@) {
                Some(len) => {
                    &&& r matches Ok(PartMessage::Message(message))
                    &&& message.ty == FrameType::spec_from_tag(old(self)@[0])
                    &&& message.buffer@ == old(self)@.take(len as int)
                    &&& final(self)@ == old(self)@.skip(len as int)
                },
                None => {
                    &&& r matches Ok(PartMessage::InsufficientData)
                    &&& final(self)@ == old(self)@
                },
            },
    {
        if self.data.len() < HEADER_SIZE {
            return Ok(PartMessage::InsufficientData);
        }
        let ghost buffered = self.data@;
        let mut front: &[u8] = vstd::slice::slice_subrange(self.data.as_slice(), 0, HEADER_SIZE);
        proof {
            assert(front@.skip(1).take(4) =~= buffered.subrange(1, HEADER_SIZE as int));
            lemma_be_value_bound(buffered.subrange(1, HEADER_SIZE as int));
            lemma_pow256_values();
        }
        let header = match Header::decode(&mut front) {
            Ok(header) => header,
            Err(e) => {
                return Err(e);
            },
        };
        if self.data.len() - HEADER_SIZE >= header.size as usize {
            // We can extract a message
            let message_size = HEADER_SIZE + header.size as usize;
            let mut buffer = self.data.split_off(message_size);
            core::mem::swap(&mut buffer, &mut self.data);
            Ok(PartMessage::Message(Message { ty: header.frame_type, buffer }))
        } else {
            // Insufficient data
            Ok(PartMessage::InsufficientData)
        }
    }
}

} // verus!
