//! What holds of the frames: each reads back as it was written, and a stream hands out a
//! frame when, and only when, all of it has come in.
use crate::codec::bytes::{
    be_bytes, be_value, lemma_be_bytes_len, lemma_be_value_of_bytes, lemma_pow256_values,
};
use crate::codec::decode::Decode;
use crate::codec::encode::Encode;
use crate::codec::laws::RoundTrip;
use crate::crypto::PublicKey;
use crate::inout::{next_frame_len, HEADER_SIZE};
use crate::proto::data::{
    ClientInfo, ForwardPacket, Frame, FrameType, PeerPresent, RecvPacket, SendPacket, ServerInfo,
    ServerKey, WatchConns,
};
use vstd::prelude::*;

verus! {

impl RoundTrip for PublicKey {
    open spec fn canonical(&self) -> bool {
        true
    }

    open spec fn reads_to_end() -> bool {
        false
    }

    proof fn lemma_round_trip(&self, rest: Seq<u8>) {
        self.lemma_len();
    }
}

impl RoundTrip for FrameType {
    /// Every named type, and `Unkonow` with a tag that names none.
    open spec fn canonical(&self) -> bool {
        Self::spec_from_tag(self.spec_tag()) == *self
    }

    open spec fn reads_to_end() -> bool {
        false
    }

    proof fn lemma_round_trip(&self, rest: Seq<u8>) {
    }
}

impl<T: RoundTrip> RoundTrip for Frame<T> {
    open spec fn canonical(&self) -> bool {
        self.frame_type.canonical() && self.inner.canonical()
    }

    open spec fn reads_to_end() -> bool {
        false
    }

    proof fn lemma_round_trip(&self, rest: Seq<u8>) {
        let input = self.wire() + rest;
        assert(input.skip(1) =~= self.inner.wire() + rest);
        self.inner.lemma_round_trip(rest);
    }
}

impl RoundTrip for ServerKey {
    open spec fn canonical(&self) -> bool {
        true
    }

    open spec fn reads_to_end() -> bool {
        false
    }

    proof fn lemma_round_trip(&self, rest: Seq<u8>) {
        let input = self.wire() + rest;
        self.magic.lemma_round_trip(self.public_key.wire() + rest);
        self.public_key.lemma_round_trip(rest);
    }
}

impl RoundTrip for ClientInfo {
    open spec fn canonical(&self) -> bool {
        true
    }

    open spec fn reads_to_end() -> bool {
        true
    }

    proof fn lemma_round_trip(&self, rest: Seq<u8>) {
        let input = self.wire() + rest;
        self.public_key.lemma_len();
        self.public_key.lemma_round_trip(self.nonce.wire() + self.cipher_text.wire());
        self.nonce.lemma_round_trip(self.cipher_text.wire());
        assert(input.skip(56) =~= self.cipher_text.wire() + Seq::<u8>::empty());
        self.cipher_text.lemma_round_trip(Seq::empty());
    }
}

/// A key and then bytes to the end read back as the key and the bytes.
pub proof fn lemma_key_and_rest_round_trip(key: PublicKey, payload: Vec<u8>)
    ensures
        crate::proto::data::parse_key_and_rest(key.wire() + payload.wire()) == Some(
            ((key.deep_view(), payload.deep_view()), (key.wire() + payload.wire()).len()),
        ),
{
    let input = key.wire() + payload.wire();
    key.lemma_len();
    key.lemma_round_trip(payload.wire());
    assert(input.skip(32) =~= payload.wire() + Seq::<u8>::empty());
    payload.lemma_round_trip(Seq::empty());
}

impl RoundTrip for ServerInfo {
    open spec fn canonical(&self) -> bool {
        true
    }

    open spec fn reads_to_end() -> bool {
        true
    }

    proof fn lemma_round_trip(&self, rest: Seq<u8>) {
        self.lemma_bytes();
        self.bytes().lemma_round_trip(rest);
    }
}

impl RoundTrip for SendPacket {
    open spec fn canonical(&self) -> bool {
        true
    }

    open spec fn reads_to_end() -> bool {
        true
    }

    proof fn lemma_round_trip(&self, rest: Seq<u8>) {
        lemma_key_and_rest_round_trip(self.target, self.payload);
    }
}

impl RoundTrip for RecvPacket {
    open spec fn canonical(&self) -> bool {
        true
    }

    open spec fn reads_to_end() -> bool {
        true
    }

    proof fn lemma_round_trip(&self, rest: Seq<u8>) {
        lemma_key_and_rest_round_trip(self.target, self.payload);
    }
}

impl RoundTrip for ForwardPacket {
    open spec fn canonical(&self) -> bool {
        true
    }

    open spec fn reads_to_end() -> bool {
        true
    }

    proof fn lemma_round_trip(&self, rest: Seq<u8>) {
        let input = self.wire() + rest;
        self.source.lemma_len();
        self.source.lemma_round_trip(self.target.wire() + self.payload.wire());
        assert(input.skip(32) =~= self.target.wire() + self.payload.wire());
        lemma_key_and_rest_round_trip(self.target, self.payload);
    }
}

impl RoundTrip for PeerPresent {
    open spec fn canonical(&self) -> bool {
        true
    }

    open spec fn reads_to_end() -> bool {
        false
    }

    proof fn lemma_round_trip(&self, rest: Seq<u8>) {
        self.public_key.lemma_round_trip(rest);
    }
}

impl RoundTrip for WatchConns {
    open spec fn canonical(&self) -> bool {
        true
    }

    open spec fn reads_to_end() -> bool {
        true
    }

    proof fn lemma_round_trip(&self, rest: Seq<u8>) {
        self.data.lemma_round_trip(rest);
    }
}

/// Round trip: a frame whose type is the one that its tag names, and whose body is short
/// enough for the length in front of it, decodes from its own encoding to itself, and the
/// decoder takes every byte of the encoding.
pub proof fn lemma_frame_round_trip<T: RoundTrip>(frame: Frame<T>)
    requires
        frame.encodable(),
        frame.canonical(),
    ensures
        Frame::<T>::parse(frame.wire()) == Some((frame.deep_view(), frame.wire().len())),
{
    frame.lemma_round_trip(Seq::empty());
}

/// The encoding of a frame is its tag, the length of its body in four bytes, and the body.
pub proof fn lemma_frame_layout<T: Encode>(frame: Frame<T>)
    requires
        frame.encodable(),
    ensures
        frame.wire().len() == HEADER_SIZE + frame.inner.value().wire().len(),
        frame.wire()[0] == frame.frame_type.spec_tag(),
        be_value(frame.wire().subrange(1, HEADER_SIZE as int)) == frame.inner.value().wire().len(),
{
    let body = frame.inner.value().wire();
    lemma_pow256_values();
    lemma_be_bytes_len(body.len(), 4);
    lemma_be_value_of_bytes(body.len(), 4);
    assert(frame.wire().subrange(1, HEADER_SIZE as int) =~= be_bytes(body.len(), 4));
}

/// A stream that holds all of a frame, whatever follows it, hands out exactly its bytes.
pub proof fn lemma_whole_frame_is_taken<T: Encode>(frame: Frame<T>, rest: Seq<u8>)
    requires
        frame.encodable(),
    ensures
        next_frame_len(frame.wire() + rest) == Some(frame.wire().len()),
        (frame.wire() + rest).take(frame.wire().len() as int) == frame.wire(),
        (frame.wire() + rest)[0] == frame.frame_type.spec_tag(),
{
    lemma_frame_layout(frame);
    let input = frame.wire() + rest;
    assert(input.subrange(1, HEADER_SIZE as int) =~= frame.wire().subrange(1, HEADER_SIZE as int));
}

/// Partial input: a stream that holds only a strict prefix of a frame hands out nothing,
/// however long the prefix is.
pub proof fn lemma_partial_frame_is_insufficient<T: Encode>(frame: Frame<T>, cut: int)
    requires
        frame.encodable(),
        0 <= cut < frame.wire().len(),
    ensures
        next_frame_len(frame.wire().take(cut)) is None,
{
    lemma_frame_layout(frame);
    let input = frame.wire().take(cut);
    if cut >= HEADER_SIZE {
        assert(input.subrange(1, HEADER_SIZE as int) =~= frame.wire().subrange(
            1,
            HEADER_SIZE as int,
        ));
    }
}

} // verus!
