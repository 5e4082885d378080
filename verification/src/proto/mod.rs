//! The handshake of the relay protocol, and the frames that follow it.
pub mod data;
pub mod http;
pub mod laws;

use crate::codec::bytes::{lemma_be_bytes_4, lemma_pow256_values};
use crate::codec::decode::Decode;
use crate::codec::encode::{lemma_concat_wire_of_bytes, Encode};
use crate::codec::SizeWrapper;
use crate::crypto::{salsa_box_open, salsa_box_seal, x25519_public, PublicKey, SecretKey};
use crate::error::RelayError;
use crate::proto::data::{
    client_info_json, meshkey_bytes, ClientInfo, ClientInfoPayload, ForwardPacket, Frame, FrameType,
    PeerPresent, RecvPacket, ServerInfo, ServerKey, WatchConns, CLIENT_INFO_VERSION, MAGIC,
};
use crate::proto::http::{finalize_http_phase, httparse_request, upgrade_verdict, HTTP_OK};
use vstd::prelude::*;

verus! {

/// The longest body that a frame can carry: what four bytes of length can count.
pub const MAX_BODY_SIZE: usize = 0xffff_ffff;

/// The five bytes in front of a body of `len` bytes in a frame of type `frame_type`.
pub open spec fn frame_header(frame_type: FrameType, len: nat) -> Seq<u8> {
    seq![
        frame_type.spec_tag(),
        (len / 0x100_0000 % 256) as u8,
        (len / 0x1_0000 % 256) as u8,
        (len / 0x100 % 256) as u8,
        (len % 256) as u8,
    ]
}

/// The frame of type `frame_type` with the body `body`, as it stands on the wire.
pub open spec fn frame_of(frame_type: FrameType, body: Seq<u8>) -> Seq<u8> {
    frame_header(frame_type, body.len()) + body
}

/// The encoding of a frame is its header and the encoding of its body.
pub proof fn lemma_frame_wire<T: Encode>(frame: Frame<T>)
    ensures
        frame.wire() == frame_of(frame.frame_type, frame.inner.value().wire()),
{
    lemma_be_bytes_4(frame.inner.value().wire().len());
}

/// The bytes of `frame` on the wire.
pub fn frame_bytes<T: Encode>(frame: &Frame<T>) -> (bytes: Vec<u8>)
    requires
        frame.encodable(),
    ensures
        bytes@ == frame.wire(),
        bytes@ == frame_of(frame.frame_type, frame.inner.value().wire()),
{
    let mut bytes: Vec<u8> = Vec::new();
    let _ = frame.encode(&mut bytes);
    proof {
        lemma_frame_wire(*frame);
    }
    bytes
}

/// The frame with which a server opens the handshake: the magic bytes and its public key.
pub fn write_server_key(secret_key: &SecretKey) -> (bytes: Vec<u8>)
    ensures
        bytes@ == frame_of(FrameType::ServerKey, MAGIC@ + x25519_public(secret_key@)),
{
    let server_key = ServerKey::new(secret_key.public());
    let frame = server_key.frame();
    proof {
        lemma_pow256_values();
        server_key.public_key.lemma_len();
    }
    frame_bytes(&frame)
}

/// What a read of `buf` gives as the server's public key.
pub open spec fn server_key_read(buf: Seq<u8>) -> Result<Seq<u8>, RelayError> {
    let frame_type = if buf.len() > 0 {
        FrameType::spec_from_tag(buf[0])
    } else {
        FrameType::Unkonow(0)
    };
    if frame_type != FrameType::ServerKey {
        Err(RelayError::UnexpectedFrame(frame_type))
    } else {
        match Frame::<ServerKey>::parse(buf) {
            None => Err(RelayError::Decode),
            Some(((_, (magic, public_key)), _)) => if magic == MAGIC@ {
                Ok(public_key)
            } else {
                Err(RelayError::InvalidMagic)
            },
        }
    }
}

/// The public key of the server out of the frame that opens the handshake. The frame has to
/// start `buf` and be a whole server key frame with the magic bytes in front.
pub fn read_server_key(buf: &[u8]) -> (r: Result<PublicKey, RelayError>)
    ensures
        match server_key_read(buf@) {
            Ok(public_key) => r matches Ok(key) && key@ == public_key,
            Err(fault) => r matches Err(e) && e == fault,
        },
{
    let frame_type = FrameType::get_frame_type(buf);
    if frame_type != FrameType::ServerKey {
        return Err(RelayError::UnexpectedFrame(frame_type));
    }
    let mut rest: &[u8] = buf;
    let frame = match Frame::<ServerKey>::decode(&mut rest) {
        Ok(frame) => frame,
        Err(_) => {
            return Err(RelayError::Decode);
        },
    };
    let server_key = frame.inner.into_inner();
    assert(server_key.magic.deep_view() =~= server_key.magic@);
    match server_key.validate_magic() {
        Ok(()) => Ok(server_key.public_key),
        Err(fault) => Err(fault),
    }
}

/// What a read of `buf` gives as the client info, and as what the client sealed in it for
/// the owner of `secret`.
pub open spec fn client_info_read(buf: Seq<u8>, secret: Seq<u8>) -> Result<
    ((Seq<u8>, Seq<u8>, Seq<u8>), Seq<u8>),
    RelayError,
> {
    let frame_type = if buf.len() > 0 {
        FrameType::spec_from_tag(buf[0])
    } else {
        FrameType::Unkonow(0)
    };
    if frame_type != FrameType::ClientInfo {
        Err(RelayError::UnexpectedFrame(frame_type))
    } else {
        match Frame::<ClientInfo>::parse(buf) {
            None => Err(RelayError::Decode),
            Some(((_, info), _)) => match salsa_box_open(info.0, secret, info.1, info.2) {
                None => Err(RelayError::Decrypt),
                Some(plain_text) => Ok((info, plain_text)),
            },
        }
    }
}

/// The client info out of the frame that answers the server key, and what the client sealed
/// in it. The frame has to start `buf` and be a whole client info frame.
pub fn read_client_info(buf: &[u8], sk: &SecretKey) -> (r: Result<(ClientInfo, Vec<u8>), RelayError>)
    ensures
        match client_info_read(buf@, sk@) {
            Ok((info, plain_text)) => {
                &&& r matches Ok(read)
                &&& read.0.public_key@ == info.0
                &&& read.0.nonce@ == info.1
                &&& read.0.cipher_text@ == info.2
                &&& read.1@ == plain_text
            },
            Err(fault) => r matches Err(e) && e == fault,
        },
{
    let frame_type = FrameType::get_frame_type(buf);
    if frame_type != FrameType::ClientInfo {
        return Err(RelayError::UnexpectedFrame(frame_type));
    }
    let mut rest: &[u8] = buf;
    let frame = match Frame::<ClientInfo>::decode(&mut rest) {
        Ok(frame) => frame,
        Err(_) => {
            return Err(RelayError::Decode);
        },
    };
    let client_info = frame.inner.into_inner();
    proof {
        assert(client_info.nonce.deep_view() =~= client_info.nonce@);
        assert(client_info.cipher_text.deep_view() =~= client_info.cipher_text@);
    }
    match client_info.open(sk) {
        Ok(plain_text) => Ok((client_info, plain_text)),
        Err(fault) => Err(fault),
    }
}

/// The mesh key that a client presents: none where the text is empty.
pub fn presented_meshkey(meshkey: String) -> (presented: Option<String>)
    ensures
        presented == if meshkey@.len() == 0 {
            None
        } else {
            Some(meshkey)
        },
{
    if meshkey.as_str().is_empty() {
        None
    } else {
        Some(meshkey)
    }
}

/// The frame with which a client answers the server key.
pub fn write_client_info(client_info: ClientInfo) -> (r: Result<Vec<u8>, RelayError>)
    ensures
        match r {
            Ok(bytes) => {
                &&& client_info.cipher_text@.len() + 56 <= MAX_BODY_SIZE
                &&& bytes@ == frame_of(
                    FrameType::ClientInfo,
                    client_info.public_key@ + client_info.nonce@ + client_info.cipher_text@,
                )
            },
            Err(e) => e == RelayError::FrameTooLong && client_info.cipher_text@.len() + 56
                > MAX_BODY_SIZE,
        },
{
    if client_info.cipher_text.len() > MAX_BODY_SIZE - 56 {
        return Err(RelayError::FrameTooLong);
    }
    proof {
        lemma_pow256_values();
        client_info.public_key.lemma_len();
        lemma_concat_wire_of_bytes(client_info.cipher_text@);
    }
    let frame = client_info.frame();
    Ok(frame_bytes(&frame))
}

/// The frame with which a server closes the handshake: a server info without a body.
pub fn write_server_info() -> (bytes: Vec<u8>)
    ensures
        bytes@ == frame_of(FrameType::ServerInfo, Seq::empty()),
{
    let frame = ServerInfo::default().frame();
    proof {
        lemma_pow256_values();
    }
    frame_bytes(&frame)
}

/// Whether the frame that starts `buf` closes the handshake.
pub fn read_server_info(buf: &[u8]) -> (r: Result<(), RelayError>)
    ensures
        r == if buf@.len() > 0 && FrameType::spec_from_tag(buf@[0]) == FrameType::ServerInfo {
            Ok::<(), RelayError>(())
        } else if buf@.len() > 0 {
            Err::<(), RelayError>(
                RelayError::UnexpectedFrame(FrameType::spec_from_tag(buf@[0])),
            )
        } else {
            Err::<(), RelayError>(RelayError::UnexpectedFrame(FrameType::Unkonow(0)))
        },
{
    let frame_type = FrameType::get_frame_type(buf);
    if frame_type != FrameType::ServerInfo {
        Err(RelayError::UnexpectedFrame(frame_type))
    } else {
        Ok(())
    }
}

/// The frame that tells a mesh peer that the owner of `public_key` is reachable here.
pub fn write_peer_present(public_key: &PublicKey) -> (bytes: Vec<u8>)
    ensures
        bytes@ == frame_of(FrameType::PeerPresent, public_key@),
{
    let peer_present = Frame {
        frame_type: FrameType::PeerPresent,
        inner: SizeWrapper::new(PeerPresent { public_key: *public_key }),
    };
    proof {
        lemma_pow256_values();
        public_key.lemma_len();
    }
    frame_bytes(&peer_present)
}

/// The frame that hands a packet to the relay of its target.
pub fn write_forward_packet(forward_packet: ForwardPacket) -> (r: Result<Vec<u8>, RelayError>)
    ensures
        match r {
            Ok(bytes) => {
                &&& forward_packet.payload@.len() + 64 <= MAX_BODY_SIZE
                &&& bytes@ == frame_of(
                    FrameType::ForwardPacket,
                    forward_packet.source@ + forward_packet.target@ + forward_packet.payload@,
                )
            },
            Err(e) => e == RelayError::FrameTooLong && forward_packet.payload@.len() + 64
                > MAX_BODY_SIZE,
        },
{
    if forward_packet.payload.len() > MAX_BODY_SIZE - 64 {
        return Err(RelayError::FrameTooLong);
    }
    proof {
        lemma_pow256_values();
        forward_packet.source.lemma_len();
        forward_packet.target.lemma_len();
        lemma_concat_wire_of_bytes(forward_packet.payload@);
    }
    let frame = forward_packet.frame();
    Ok(frame_bytes(&frame))
}

/// The frame that delivers a packet to a client; the key in front names who sent it.
pub fn write_recv_packet(source: PublicKey, payload: Vec<u8>) -> (r: Result<Vec<u8>, RelayError>)
    ensures
        match r {
            Ok(bytes) => {
                &&& payload@.len() + 32 <= MAX_BODY_SIZE
                &&& bytes@ == frame_of(FrameType::RecvPacket, source@ + payload@)
            },
            Err(e) => e == RelayError::FrameTooLong && payload@.len() + 32 > MAX_BODY_SIZE,
        },
{
    if payload.len() > MAX_BODY_SIZE - 32 {
        return Err(RelayError::FrameTooLong);
    }
    proof {
        lemma_pow256_values();
        source.lemma_len();
        lemma_concat_wire_of_bytes(payload@);
    }
    let frame = Frame {
        frame_type: FrameType::RecvPacket,
        inner: SizeWrapper::new(RecvPacket { target: source, payload }),
    };
    Ok(frame_bytes(&frame))
}

/// The frame with which a relay subscribes to the clients of a mesh peer.
pub fn write_watch_conns() -> (bytes: Vec<u8>)
    ensures
        bytes@ == frame_of(FrameType::WatchConns, Seq::empty()),
{
    let frame = Frame {
        frame_type: FrameType::WatchConns,
        inner: SizeWrapper::new(WatchConns::default()),
    };
    proof {
        lemma_pow256_values();
        lemma_concat_wire_of_bytes(Seq::empty());
    }
    frame_bytes(&frame)
}

/// The client's answer to the server key in `buf`, with a client info sealed
/// under `nonce`: the public key of the server, and the frame to send.
pub fn exchange_keys_with_nonce(
    buf: &[u8],
    secret_key: SecretKey,
    meshkey: Option<&str>,
    nonce: [u8; 24],
) -> (r: Result<(PublicKey, Vec<u8>), RelayError>)
    ensures
        match server_key_read(buf@) {
            Err(fault) => r matches Err(e) && e == fault,
            Ok(server_key) => match salsa_box_seal(
                server_key,
                secret_key@,
                nonce@,
                client_info_json(meshkey_bytes(meshkey)),
            ) {
                None => r matches Err(e) && e == RelayError::Seal,
                Some(sealed) => if sealed.len() + 56 <= MAX_BODY_SIZE {
                    &&& r matches Ok(answer)
                    &&& answer.0@ == server_key
                    &&& answer.1@ == frame_of(
                        FrameType::ClientInfo,
                        x25519_public(secret_key@) + nonce@ + sealed,
                    )
                } else {
                    r matches Err(e) && e == RelayError::FrameTooLong
                },
            },
        },
{
    let server_key = match read_server_key(buf) {
        Ok(server_key) => server_key,
        Err(fault) => {
            return Err(fault);
        },
    };
    let client_info = match ClientInfo::with_nonce(secret_key, server_key, meshkey, nonce) {
        Ok(client_info) => client_info,
        Err(fault) => {
            return Err(fault);
        },
    };
    match write_client_info(client_info) {
        Ok(bytes) => Ok((server_key, bytes)),
        Err(fault) => Err(fault),
    }
}

/// Reads the server key out of `buf` and makes the initiation message for the
/// server. The initiation message consists of:
/// * `public key`
/// * `nonce` - a random byte sequence generated by client
/// * `ciphertext` - an initiation JSON encrypted with the secret key, using the nonce
///
/// The answer is that of `exchange_keys_with_nonce` for the nonce that was drawn.
pub fn exchange_keys(buf: &[u8], secret_key: SecretKey, meshkey: Option<&str>) -> (r:
    Result<(PublicKey, Vec<u8>), RelayError>)
    ensures
        match server_key_read(buf@) {
            Err(fault) => r matches Err(e) && e == fault,
            Ok(server_key) => exists|nonce: Seq<u8>|
                nonce.len() == 24 && match #[trigger] salsa_box_seal(
                    server_key,
                    secret_key@,
                    nonce,
                    client_info_json(meshkey_bytes(meshkey)),
                ) {
                    None => r matches Err(e) && e == RelayError::Seal,
                    Some(sealed) => if sealed.len() + 56 <= MAX_BODY_SIZE {
                        &&& r matches Ok(answer)
                        &&& answer.0@ == server_key
                        &&& answer.1@ == frame_of(
                            FrameType::ClientInfo,
                            x25519_public(secret_key@) + nonce + sealed,
                        )
                    } else {
                        r matches Err(e) && e == RelayError::FrameTooLong
                    },
                },
        },
{
    let nonce = crate::crypto::fresh_nonce();
    exchange_keys_with_nonce(buf, secret_key, meshkey, nonce)
}

/// Where the handshake of a server with one client stands.
pub enum HandshakeStage {
    /// Nothing was read yet: the HTTP upgrade request is due.
    Upgrade,
    /// The server key went out: the client info is due.
    ClientInfo,
    /// The client info of the owner of this key was opened: what it holds is due.
    Payload(PublicKey),
    /// The handshake is over, or failed.
    Done,
}

/// What the server's side of the handshake asks for next.
pub enum HandshakeAction {
    /// Send these bytes, then read again and hand over what was read.
    Send(Vec<u8>),
    /// Read the JSON object out of these bytes and hand over what it holds.
    ReadPayload(Vec<u8>),
    /// Send these bytes: the handshake is over, and the client is the owner of `client`.
    Finish { output: Vec<u8>, client: PublicKey, meshkey: Option<String> },
}

/// The server's side of the handshake with one client: HTTP upgrade, server key, client
/// info, server info.
pub struct ServerHandshake {
    secret_key: SecretKey,
    stage: HandshakeStage,
}

impl ServerHandshake {
    /// Where the handshake stands.
    pub closed spec fn stage(&self) -> HandshakeStage {
        self.stage
    }

    /// The secret key of the server.
    pub closed spec fn secret(&self) -> Seq<u8> {
        self.secret_key@
    }

    /// The handshake of the server that owns `secret_key` with a client that just connected.
    pub fn new(secret_key: SecretKey) -> (handshake: Self)
        ensures
            handshake.stage() is Upgrade,
            handshake.secret() == secret_key@,
    {
        ServerHandshake { secret_key, stage: HandshakeStage::Upgrade }
    }

    /// Whether the handshake is over, or failed.
    pub fn is_done(&self) -> (done: bool)
        ensures
            done == (self.stage() is Done),
    {
        match self.stage {
            HandshakeStage::Done => true,
            _ => false,
        }
    }

    /// What to do with the bytes of one read of the connection. The first read has to hold
    /// the HTTP upgrade request and is answered with the HTTP response and the server key;
    /// the second has to hold the client info, which is opened. Whatever fails ends the
    /// handshake, and nothing is sent.
    pub fn on_read(&mut self, bytes: &[u8]) -> (r: Result<HandshakeAction, RelayError>)
        ensures
            final(self).secret() == old(self).secret(),
            match old(self).stage() {
                HandshakeStage::Upgrade => match upgrade_verdict(
                    bytes@.len(),
                    httparse_request(bytes@),
                ) {
                    Ok(()) => {
                        &&& r matches Ok(HandshakeAction::Send(output))
                        &&& output@ == HTTP_OK@ + frame_of(
                            FrameType::ServerKey,
                            MAGIC@ + x25519_public(old(self).secret()),
                        )
                        &&& final(self).stage() is ClientInfo
                    },
                    Err(fault) => {
                        &&& r matches Err(e)
                        &&& e == fault
                        &&& final(self).stage() is Done
                    },
                },
                HandshakeStage::ClientInfo => match client_info_read(bytes@, old(self).secret()) {
                    Ok((info, plain_text)) => {
                        &&& r matches Ok(HandshakeAction::ReadPayload(opened))
                        &&& opened@ == plain_text
                        &&& final(self).stage() matches HandshakeStage::Payload(client)
                        &&& client@ == info.0
                    },
                    Err(fault) => {
                        &&& r matches Err(e)
                        &&& e == fault
                        &&& final(self).stage() is Done
                    },
                },
                _ => {
                    &&& r matches Err(e)
                    &&& e == RelayError::OutOfTurn
                    &&& final(self).stage() is Done
                },
            },
    {
        match self.stage {
            HandshakeStage::Upgrade => {
                match finalize_http_phase(bytes) {
                    Ok(answer) => {
                        let mut output = answer;
                        let server_key = write_server_key(&self.secret_key);
                        output.extend_from_slice(server_key.as_slice());
                        self.stage = HandshakeStage::ClientInfo;
                        Ok(HandshakeAction::Send(output))
                    },
                    Err(fault) => {
                        self.stage = HandshakeStage::Done;
                        Err(fault)
                    },
                }
            },
            HandshakeStage::ClientInfo => {
                match read_client_info(bytes, &self.secret_key) {
                    Ok((client_info, plain_text)) => {
                        self.stage = HandshakeStage::Payload(client_info.public_key);
                        Ok(HandshakeAction::ReadPayload(plain_text))
                    },
                    Err(fault) => {
                        self.stage = HandshakeStage::Done;
                        Err(fault)
                    },
                }
            },
            _ => {
                self.stage = HandshakeStage::Done;
                Err(RelayError::OutOfTurn)
            },
        }
    }

    /// What to do with what the opened client info holds, where `None` stands for a plain
    /// text that is not the JSON object that was due. A payload of the version that this
    /// relay speaks is answered with the server info, and the handshake is over; anything
    /// else ends the handshake, and nothing is sent.
    pub fn on_payload(&mut self, payload: Option<ClientInfoPayload>) -> (r: Result<
        HandshakeAction,
        RelayError,
    >)
        ensures
            final(self).secret() == old(self).secret(),
            final(self).stage() is Done,
            match old(self).stage() {
                HandshakeStage::Payload(owner) => match payload {
                    None => r matches Err(e) && e == RelayError::MalformedClientInfo,
                    Some(read) => if read.version == CLIENT_INFO_VERSION {
                        &&& r matches Ok(HandshakeAction::Finish { output, client, meshkey })
                        &&& output@ == frame_of(FrameType::ServerInfo, Seq::empty())
                        &&& client == owner
                        &&& meshkey == if read.meshkey@.len() == 0 {
                            None
                        } else {
                            Some(read.meshkey)
                        }
                    } else {
                        r matches Err(e) && e == RelayError::UnsupportedVersion(read.version)
                    },
                },
                _ => r matches Err(e) && e == RelayError::OutOfTurn,
            },
    {
        let owner = match self.stage {
            HandshakeStage::Payload(owner) => owner,
            _ => {
                self.stage = HandshakeStage::Done;
                return Err(RelayError::OutOfTurn);
            },
        };
        self.stage = HandshakeStage::Done;
        match payload {
            None => Err(RelayError::MalformedClientInfo),
            Some(read) => {
                if read.version == CLIENT_INFO_VERSION {
                    Ok(
                        HandshakeAction::Finish {
                            output: write_server_info(),
                            client: owner,
                            meshkey: presented_meshkey(read.meshkey),
                        },
                    )
                } else {
                    Err(RelayError::UnsupportedVersion(read.version))
                }
            },
        }
    }
}

} // verus!
