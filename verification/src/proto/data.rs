//! The frames of the relay protocol and their bodies.
use crate::codec::decode::{Decode, DecodeError, ReadBuffer};
use crate::codec::encode::{Encode, WriteBuffer};
use crate::codec::SizeWrapper;
use crate::crypto::{fresh_nonce, salsa_box_open, salsa_box_seal, x25519_public};
use crate::crypto::{PublicKey, SecretKey};
use crate::error::RelayError;
use vstd::prelude::*;
use vstd::string::StringSliceAdditionalSpecFns;

verus! {

/// 8 bytes of magic message prefix: `DERP🔑`
pub const MAGIC: [u8; 8] = [0x44, 0x45, 0x52, 0x50, 0xF0, 0x9F, 0x94, 0x91];

/// The version of the client info that this relay speaks.
pub const CLIENT_INFO_VERSION: u32 = 2;

/// The magic message prefix, as a sequence.
pub open spec fn magic() -> Seq<u8> {
    seq![0x44u8, 0x45u8, 0x52u8, 0x50u8, 0xF0u8, 0x9Fu8, 0x94u8, 0x91u8]
}

/// The type of a frame: the byte in front of it.
#[derive(Debug, Clone, Copy, PartialEq, Eq, Structural)]
pub enum FrameType {
    /// 8B magic + 32B public key + (0+ bytes future use)
    ServerKey,
    /// 32B pub key + 24B nonce + naclbox(json)
    ClientInfo,
    /// 24B nonce + naclbox(json)
    ServerInfo,
    /// 32B dest pub key + packet bytes
    SendPacket,
    /// v2: 32B src pub key + packet bytes
    RecvPacket,
    /// no payload, no-op (to be replaced with ping/pong)
    KeepAlive,
    /// 1 byte payload: 0x01 or 0x00 for whether this is client's home node
    NotePreferred,
    /// PeerGone is sent from server to client to signal that
    /// a previous sender is no longer connected. That is, if A
    /// sent to B, and then if A disconnects, the server sends
    /// PeerGone to B so B can forget that a reverse path
    /// exists on that connection to get back to A.
    /// 32B pub key of peer that's gone
    PeerGone,
    /// PeerPresent is like PeerGone, but for other
    /// members of the DERP region when they're meshed up together.
    /// 32B pub key of peer that's connected
    PeerPresent,
    /// 32B src pub key + 32B dst pub key + packet bytes
    ForwardPacket,
    /// WatchConns is how one DERP node in a regional mesh
    /// subscribes to the others in the region.
    /// There's no payload. If the sender doesn't have permission, the connection
    /// is closed. Otherwise, the client is initially flooded with
    /// PeerPresent for all connected nodes, and then a stream of
    /// PeerPresent & PeerGone has peers connect and disconnect.
    WatchConns,
    /// ClosePeer is a privileged frame type (requires the
    /// mesh key for now) that closes the provided peer's
    /// connection. (To be used for cluster load balancing
    /// purposes, when clients end up on a non-ideal node)
    /// 32B pub key of peer to close.
    ClosePeer,
    /// 8 byte ping payload, to be echoed back in Pong
    Ping,
    /// 8 byte payload, the contents of the ping being replied to
    Pong,
    /// control message for communication with derp. Since these messages are not
    /// for communication with other peers through derp, they don't contain public_key
    ControlMessage,
    /// Any other tag, kept as it came.
    Unkonow(u8),
}

impl DeepView for FrameType {
    type V = FrameType;

    open spec fn deep_view(&self) -> FrameType {
        *self
    }
}

impl FrameType {
    /// The byte that stands for this frame type on the wire.
    pub open spec fn spec_tag(&self) -> u8 {
        match self {
            FrameType::ServerKey => 0x01,
            FrameType::ClientInfo => 0x02,
            FrameType::ServerInfo => 0x03,
            FrameType::SendPacket => 0x04,
            FrameType::RecvPacket => 0x05,
            FrameType::KeepAlive => 0x06,
            FrameType::NotePreferred => 0x07,
            FrameType::PeerGone => 0x08,
            FrameType::PeerPresent => 0x09,
            FrameType::ForwardPacket => 0x0A,
            FrameType::WatchConns => 0x10,
            FrameType::ClosePeer => 0x11,
            FrameType::Ping => 0x12,
            FrameType::Pong => 0x13,
            FrameType::ControlMessage => 0x14,
            FrameType::Unkonow(tag) => *tag,
        }
    }

    /// The frame type that a byte on the wire stands for.
    pub open spec fn spec_from_tag(tag: u8) -> FrameType {
        if tag == 0x01 {
            FrameType::ServerKey
        } else if tag == 0x02 {
            FrameType::ClientInfo
        } else if tag == 0x03 {
            FrameType::ServerInfo
        } else if tag == 0x04 {
            FrameType::SendPacket
        } else if tag == 0x05 {
            FrameType::RecvPacket
        } else if tag == 0x06 {
            FrameType::KeepAlive
        } else if tag == 0x07 {
            FrameType::NotePreferred
        } else if tag == 0x08 {
            FrameType::PeerGone
        } else if tag == 0x09 {
            FrameType::PeerPresent
        } else if tag == 0x0A {
            FrameType::ForwardPacket
        } else if tag == 0x10 {
            FrameType::WatchConns
        } else if tag == 0x11 {
            FrameType::ClosePeer
        } else if tag == 0x12 {
            FrameType::Ping
        } else if tag == 0x13 {
            FrameType::Pong
        } else if tag == 0x14 {
            FrameType::ControlMessage
        } else {
            FrameType::Unkonow(tag)
        }
    }

    /// The byte that stands for this frame type on the wire.
    pub fn tag(&self) -> (tag: u8)
        ensures
            tag == self.spec_tag(),
    {
        match self {
            FrameType::ServerKey => 0x01,
            FrameType::ClientInfo => 0x02,
            FrameType::ServerInfo => 0x03,
            FrameType::SendPacket => 0x04,
            FrameType::RecvPacket => 0x05,
            FrameType::KeepAlive => 0x06,
            FrameType::NotePreferred => 0x07,
            FrameType::PeerGone => 0x08,
            FrameType::PeerPresent => 0x09,
            FrameType::ForwardPacket => 0x0A,
            FrameType::WatchConns => 0x10,
            FrameType::ClosePeer => 0x11,
            FrameType::Ping => 0x12,
            FrameType::Pong => 0x13,
            FrameType::ControlMessage => 0x14,
            FrameType::Unkonow(tag) => *tag,
        }
    }

    /// The frame type that a byte on the wire stands for.
    pub fn from_tag(tag: u8) -> (frame_type: Self)
        ensures
            frame_type == Self::spec_from_tag(tag),
    {
        match tag {
            0x01 => FrameType::ServerKey,
            0x02 => FrameType::ClientInfo,
            0x03 => FrameType::ServerInfo,
            0x04 => FrameType::SendPacket,
            0x05 => FrameType::RecvPacket,
            0x06 => FrameType::KeepAlive,
            0x07 => FrameType::NotePreferred,
            0x08 => FrameType::PeerGone,
            0x09 => FrameType::PeerPresent,
            0x0A => FrameType::ForwardPacket,
            0x10 => FrameType::WatchConns,
            0x11 => FrameType::ClosePeer,
            0x12 => FrameType::Ping,
            0x13 => FrameType::Pong,
            0x14 => FrameType::ControlMessage,
            other => FrameType::Unkonow(other),
        }
    }

    /// The type of the frame that starts `buf`; `Unkonow(0)` where `buf` is empty.
    pub fn get_frame_type(buf: &[u8]) -> (frame_type: Self)
        ensures
            frame_type == if buf@.len() > 0 {
                Self::spec_from_tag(buf@[0])
            } else {
                FrameType::Unkonow(0)
            },
    {
        if buf.len() > 0 {
            Self::from_tag(buf[0])
        } else {
            FrameType::Unkonow(0)
        }
    }
}

impl Encode for FrameType {
    open spec fn wire(&self) -> Seq<u8> {
        seq![self.spec_tag()]
    }

    open spec fn encodable(&self) -> bool {
        true
    }

    fn encode<W: WriteBuffer>(&self, write_buffer: &mut W) -> (r: Result<usize, W::Error>) {
        self.tag().encode(write_buffer)
    }
}

impl Decode for FrameType {
    open spec fn parse(input: Seq<u8>) -> Option<(FrameType, nat)> {
        if input.len() < 1 {
            None
        } else {
            Some((Self::spec_from_tag(input[0]), 1))
        }
    }

    proof fn lemma_parse_in_bounds(input: Seq<u8>) {
    }

    fn decode<R: ReadBuffer>(read_buffer: &mut R) -> (r: Result<Self, DecodeError>) {
        match u8::decode(read_buffer) {
            Ok(tag) => Ok(Self::from_tag(tag)),
            Err(e) => Err(e),
        }
    }
}

/// A typed message on the wire: the type, then the body with its length in front.
pub struct Frame<T> {
    pub frame_type: FrameType,
    pub inner: SizeWrapper<u32, T>,
}

impl<T: DeepView> DeepView for Frame<T> {
    type V = (FrameType, T::V);

    open spec fn deep_view(&self) -> (FrameType, T::V) {
        (self.frame_type, self.inner.deep_view())
    }
}

impl<T: Encode> Encode for Frame<T> {
    open spec fn wire(&self) -> Seq<u8> {
        self.frame_type.wire() + self.inner.wire()
    }

    open spec fn encodable(&self) -> bool {
        self.inner.encodable()
    }

    fn encode<W: WriteBuffer>(&self, write_buffer: &mut W) -> (r: Result<usize, W::Error>) {
        (&self.frame_type, &self.inner).encode(write_buffer)
    }
}

impl<T: Decode> Decode for Frame<T> {
    open spec fn parse(input: Seq<u8>) -> Option<((FrameType, T::V), nat)> {
        match FrameType::parse(input) {
            Some((frame_type, used)) => match SizeWrapper::<u32, T>::parse(input.skip(used as int)) {
                Some((inner, more)) => Some(((frame_type, inner), used + more)),
                None => None,
            },
            None => None,
        }
    }

    proof fn lemma_parse_in_bounds(input: Seq<u8>) {
        SizeWrapper::<u32, T>::lemma_parse_in_bounds(input.skip(1));
    }

    fn decode<R: ReadBuffer>(read_buffer: &mut R) -> (r: Result<Self, DecodeError>) {
        let ghost input = read_buffer.remaining();
        let frame_type = match FrameType::decode(read_buffer) {
            Ok(frame_type) => frame_type,
            Err(e) => {
                return Err(e);
            },
        };
        let inner = match SizeWrapper::<u32, T>::decode(read_buffer) {
            Ok(inner) => inner,
            Err(e) => {
                return Err(e);
            },
        };
        proof {
            SizeWrapper::<u32, T>::lemma_parse_in_bounds(input.skip(1));
        }
        Ok(Frame { frame_type, inner })
    }
}

/// What a server says first: the magic bytes and its public key.
#[derive(Clone)]
pub struct ServerKey {
    pub magic: [u8; 8],
    pub public_key: PublicKey,
}

impl DeepView for ServerKey {
    type V = (Seq<u8>, Seq<u8>);

    open spec fn deep_view(&self) -> (Seq<u8>, Seq<u8>) {
        (self.magic.deep_view(), self.public_key.deep_view())
    }
}

impl Default for ServerKey {
    /// A server key of zeros: it does not carry the magic bytes.
    fn default() -> (server_key: Self)
        ensures
            server_key.magic@ == Seq::new(8, |i: int| 0u8),
            server_key.public_key@ == Seq::new(32, |i: int| 0u8),
    {
        let server_key = ServerKey { magic: [0u8; 8], public_key: PublicKey::default() };
        server_key
    }
}

impl ServerKey {
    /// The server key of the owner of `public_key`, with the magic bytes in front.
    pub fn new(public_key: PublicKey) -> (server_key: Self)
        ensures
            server_key.magic@ == magic(),
            server_key.public_key == public_key,
    {
        let server_key = ServerKey { magic: MAGIC, public_key };
        server_key
    }

    /// This consumes self.
    pub fn frame(self) -> (frame: Frame<ServerKey>)
        ensures
            frame.frame_type == FrameType::ServerKey,
            frame.inner.value() == self,
    {
        Frame { frame_type: FrameType::ServerKey, inner: SizeWrapper::new(self) }
    }

    /// Whether the magic bytes are the ones that a server key starts with.
    pub fn validate_magic(&self) -> (r: Result<(), RelayError>)
        ensures
            r == if self.magic@ == magic() {
                Ok::<(), RelayError>(())
            } else {
                Err::<(), RelayError>(RelayError::InvalidMagic)
            },
    {
        let expected = MAGIC;
        if crate::crypto::same_bytes(self.magic.as_slice(), expected.as_slice()) {
            Ok(())
        } else {
            Err(RelayError::InvalidMagic)
        }
    }
}

impl Encode for ServerKey {
    open spec fn wire(&self) -> Seq<u8> {
        self.magic.wire() + self.public_key.wire()
    }

    open spec fn encodable(&self) -> bool {
        true
    }

    fn encode<W: WriteBuffer>(&self, write_buffer: &mut W) -> (r: Result<usize, W::Error>) {
        (&self.magic, &self.public_key).encode(write_buffer)
    }
}

impl Decode for ServerKey {
    open spec fn parse(input: Seq<u8>) -> Option<((Seq<u8>, Seq<u8>), nat)> {
        match <[u8; 8]>::parse(input) {
            Some((magic, used)) => match PublicKey::parse(input.skip(used as int)) {
                Some((public_key, more)) => Some(((magic, public_key), used + more)),
                None => None,
            },
            None => None,
        }
    }

    proof fn lemma_parse_in_bounds(input: Seq<u8>) {
    }

    fn decode<R: ReadBuffer>(read_buffer: &mut R) -> (r: Result<Self, DecodeError>) {
        let ghost input = read_buffer.remaining();
        let magic = match <[u8; 8]>::decode(read_buffer) {
            Ok(magic) => magic,
            Err(e) => {
                return Err(e);
            },
        };
        let public_key = match PublicKey::decode(read_buffer) {
            Ok(public_key) => public_key,
            Err(e) => {
                return Err(e);
            },
        };
        Ok(ServerKey { magic, public_key })
    }
}

/// What the client info holds once it is opened.
#[derive(Debug, PartialEq, Eq)]
pub struct ClientInfoPayload {
    pub version: u32,
    pub meshkey: String,
}

/// What a client answers to the server key: its public key, and under a nonce the sealed
/// JSON object that carries the protocol version and the mesh key.
#[derive(Clone)]
pub struct ClientInfo {
    pub public_key: PublicKey,
    pub nonce: [u8; 24],
    pub cipher_text: Vec<u8>,
}

impl DeepView for ClientInfo {
    type V = (Seq<u8>, Seq<u8>, Seq<u8>);

    open spec fn deep_view(&self) -> (Seq<u8>, Seq<u8>, Seq<u8>) {
        (self.public_key.deep_view(), self.nonce.deep_view(), self.cipher_text.deep_view())
    }
}

/// `{"version": 2, "meshKey": "`
pub open spec fn client_info_json_head() -> Seq<u8> {
    seq![
        0x7bu8, 0x22u8, 0x76u8, 0x65u8, 0x72u8, 0x73u8, 0x69u8, 0x6fu8, 0x6eu8, 0x22u8, 0x3au8,
        0x20u8, 0x32u8, 0x2cu8, 0x20u8, 0x22u8, 0x6du8, 0x65u8, 0x73u8, 0x68u8, 0x4bu8, 0x65u8,
        0x79u8, 0x22u8, 0x3au8, 0x20u8, 0x22u8,
    ]
}

/// `"}`
pub open spec fn client_info_json_tail() -> Seq<u8> {
    seq![0x22u8, 0x7du8]
}

/// The JSON object that a client seals: version 2, and the mesh key as it stands.
pub open spec fn client_info_json(meshkey: Seq<u8>) -> Seq<u8> {
    client_info_json_head() + meshkey + client_info_json_tail()
}

/// The bytes of the mesh key that a client presents; none where it presents no key.
pub open spec fn meshkey_bytes(meshkey: Option<&str>) -> Seq<u8> {
    match meshkey {
        Some(key) => key.spec_bytes(),
        None => Seq::empty(),
    }
}

/// The JSON object that a client seals, as bytes.
pub fn client_info_plain_text(meshkey: Option<&str>) -> (plain_text: Vec<u8>)
    ensures
        plain_text@ == client_info_json(meshkey_bytes(meshkey)),
{
    let head: [u8; 27] = [
        0x7b, 0x22, 0x76, 0x65, 0x72, 0x73, 0x69, 0x6f, 0x6e, 0x22, 0x3a, 0x20, 0x32, 0x2c, 0x20,
        0x22, 0x6d, 0x65, 0x73, 0x68, 0x4b, 0x65, 0x79, 0x22, 0x3a, 0x20, 0x22,
    ];
    let tail: [u8; 2] = [0x22, 0x7d];
    let mut plain_text: Vec<u8> = Vec::new();
    plain_text.extend_from_slice(head.as_slice());
    match meshkey {
        Some(key) => {
            plain_text.extend_from_slice(key.as_bytes());
        },
        None => {},
    }
    plain_text.extend_from_slice(tail.as_slice());
    plain_text
}

impl ClientInfo {
    /// The client info of the owner of `secret_key` for the server `server_key`, sealed under
    /// a fresh nonce. It fails only where the box does not seal under the nonce that was
    /// drawn.
    pub fn new(secret_key: SecretKey, server_key: PublicKey, meshkey: Option<&str>) -> (r: Result<
        Self,
        RelayError,
    >)
        ensures
            r matches Ok(info) ==> {
                &&& info.public_key@ == x25519_public(secret_key@)
                &&& salsa_box_seal(
                    server_key@,
                    secret_key@,
                    info.nonce@,
                    client_info_json(meshkey_bytes(meshkey)),
                ) == Some(info.cipher_text@)
            },
            r matches Err(e) ==> e == RelayError::Seal && exists|nonce: Seq<u8>|
                nonce.len() == 24 && (#[trigger] salsa_box_seal(
                    server_key@,
                    secret_key@,
                    nonce,
                    client_info_json(meshkey_bytes(meshkey)),
                )) is None,
    {
        let nonce = fresh_nonce();
        Self::with_nonce(secret_key, server_key, meshkey, nonce)
    }

    /// The client info of the owner of `secret_key` for the server `server_key`, sealed under
    /// `nonce`.
    pub fn with_nonce(
        secret_key: SecretKey,
        server_key: PublicKey,
        meshkey: Option<&str>,
        nonce: [u8; 24],
    ) -> (r: Result<Self, RelayError>)
        ensures
            match salsa_box_seal(
                server_key@,
                secret_key@,
                nonce@,
                client_info_json(meshkey_bytes(meshkey)),
            ) {
                Some(sealed) => {
                    &&& r matches Ok(info)
                    &&& info.public_key@ == x25519_public(secret_key@)
                    &&& info.nonce@ == nonce@
                    &&& info.cipher_text@ == sealed
                },
                None => r matches Err(e) && e == RelayError::Seal,
            },
    {
        let plain_text = client_info_plain_text(meshkey);
        match secret_key.seal(&server_key, &nonce, plain_text.as_slice()) {
            Ok(cipher_text) => Ok(
                ClientInfo { public_key: secret_key.public(), nonce, cipher_text },
            ),
            Err(_) => Err(RelayError::Seal),
        }
    }

    /// What the client sealed, opened with the secret key of the server it was sealed for.
    pub fn open(&self, sk: &SecretKey) -> (r: Result<Vec<u8>, RelayError>)
        ensures
            match salsa_box_open(self.public_key@, sk@, self.nonce@, self.cipher_text@) {
                Some(opened) => r matches Ok(plain_text) && plain_text@ == opened,
                None => r matches Err(e) && e == RelayError::Decrypt,
            },
    {
        match sk.open(&self.public_key, &self.nonce, self.cipher_text.as_slice()) {
            Ok(plain_text) => Ok(plain_text),
            Err(_) => Err(RelayError::Decrypt),
        }
    }

    /// The client info together with what was read out of its opened plain text; `None`
    /// stands for a plain text that is not the JSON object that was due.
    pub fn complete(&self, payload: Option<ClientInfoPayload>) -> (r: Result<
        CompleteClientInfo,
        RelayError,
    >)
        ensures
            match payload {
                None => r matches Err(e) && e == RelayError::MalformedClientInfo,
                Some(read) => if read.version == CLIENT_INFO_VERSION {
                    &&& r matches Ok(complete)
                    &&& complete.public_key == self.public_key
                    &&& complete.nonce == self.nonce
                    &&& complete.payload == read
                } else {
                    r matches Err(e) && e == RelayError::UnsupportedVersion(read.version)
                },
            },
    {
        match payload {
            None => Err(RelayError::MalformedClientInfo),
            Some(read) => {
                if read.version == CLIENT_INFO_VERSION {
                    Ok(
                        CompleteClientInfo {
                            public_key: self.public_key,
                            nonce: self.nonce,
                            payload: read,
                        },
                    )
                } else {
                    Err(RelayError::UnsupportedVersion(read.version))
                }
            },
        }
    }

    /// This consumes self.
    pub fn frame(self) -> (frame: Frame<ClientInfo>)
        ensures
            frame.frame_type == FrameType::ClientInfo,
            frame.inner.value() == self,
    {
        Frame { frame_type: FrameType::ClientInfo, inner: SizeWrapper::new(self) }
    }
}

impl Encode for ClientInfo {
    open spec fn wire(&self) -> Seq<u8> {
        self.public_key.wire() + self.nonce.wire() + self.cipher_text.wire()
    }

    open spec fn encodable(&self) -> bool {
        true
    }

    fn encode<W: WriteBuffer>(&self, write_buffer: &mut W) -> (r: Result<usize, W::Error>) {
        assert(self.public_key.wire() + (self.nonce.wire() + self.cipher_text.wire())
            =~= self.wire());
        (&self.public_key, (&self.nonce, &self.cipher_text)).encode(write_buffer)
    }
}

impl Decode for ClientInfo {
    open spec fn parse(input: Seq<u8>) -> Option<((Seq<u8>, Seq<u8>, Seq<u8>), nat)> {
        match PublicKey::parse(input) {
            Some((public_key, used)) => match <[u8; 24]>::parse(input.skip(used as int)) {
                Some((nonce, more)) => match Vec::<u8>::parse(input.skip((used + more) as int)) {
                    Some((cipher_text, rest)) => Some(
                        ((public_key, nonce, cipher_text), used + more + rest),
                    ),
                    None => None,
                },
                None => None,
            },
            None => None,
        }
    }

    proof fn lemma_parse_in_bounds(input: Seq<u8>) {
    }

    fn decode<R: ReadBuffer>(read_buffer: &mut R) -> (r: Result<Self, DecodeError>) {
        let ghost input = read_buffer.remaining();
        let public_key = match PublicKey::decode(read_buffer) {
            Ok(public_key) => public_key,
            Err(e) => {
                return Err(e);
            },
        };
        let nonce = match <[u8; 24]>::decode(read_buffer) {
            Ok(nonce) => nonce,
            Err(e) => {
                return Err(e);
            },
        };
        assert(input.skip(32).skip(24) =~= input.skip(56));
        let cipher_text = match Vec::<u8>::decode(read_buffer) {
            Ok(cipher_text) => cipher_text,
            Err(e) => {
                return Err(e);
            },
        };
        Ok(ClientInfo { public_key, nonce, cipher_text })
    }
}

/// The client info with its payload read.
pub struct CompleteClientInfo {
    pub public_key: PublicKey,
    pub nonce: [u8; 24],
    pub payload: ClientInfoPayload,
}

/// What a server says last in the handshake: bytes that nobody reads.
pub struct ServerInfo {
    data: Vec<u8>,
}

impl DeepView for ServerInfo {
    type V = Seq<u8>;

    closed spec fn deep_view(&self) -> Seq<u8> {
        self.data.deep_view()
    }
}

impl Default for ServerInfo {
    /// The server info without any bytes.
    fn default() -> (info: Self)
        ensures
            info.wire() == Seq::<u8>::empty(),
    {
        let info = ServerInfo { data: Vec::new() };
        proof {
            crate::codec::encode::lemma_concat_wire_of_bytes(info.data@);
        }
        info
    }
}

impl ServerInfo {
    /// The bytes held.
    pub closed spec fn bytes(&self) -> Vec<u8> {
        self.data
    }

    /// A server info goes on the wire, and reads back, as the bytes that it holds.
    pub proof fn lemma_bytes(&self)
        ensures
            self.wire() == self.bytes().wire(),
            self.deep_view() == self.bytes().deep_view(),
    {
    }

    /// This consumes self.
    pub fn frame(self) -> (frame: Frame<ServerInfo>)
        ensures
            frame.frame_type == FrameType::ServerInfo,
            frame.inner.value() == self,
    {
        Frame { frame_type: FrameType::ServerInfo, inner: SizeWrapper::new(self) }
    }
}

impl Encode for ServerInfo {
    closed spec fn wire(&self) -> Seq<u8> {
        self.data.wire()
    }

    open spec fn encodable(&self) -> bool {
        true
    }

    fn encode<W: WriteBuffer>(&self, write_buffer: &mut W) -> (r: Result<usize, W::Error>) {
        self.data.encode(write_buffer)
    }
}

impl Decode for ServerInfo {
    open spec fn parse(input: Seq<u8>) -> Option<(Seq<u8>, nat)> {
        Vec::<u8>::parse(input)
    }

    proof fn lemma_parse_in_bounds(input: Seq<u8>) {
    }

    fn decode<R: ReadBuffer>(read_buffer: &mut R) -> (r: Result<Self, DecodeError>) {
        match Vec::<u8>::decode(read_buffer) {
            Ok(data) => Ok(ServerInfo { data }),
            Err(e) => Err(e),
        }
    }
}

/// A packet from a client for the owner of the key `target`.
#[derive(Debug)]
pub struct SendPacket {
    pub target: PublicKey,
    pub payload: Vec<u8>,
}

impl DeepView for SendPacket {
    type V = (Seq<u8>, Seq<u8>);

    open spec fn deep_view(&self) -> (Seq<u8>, Seq<u8>) {
        (self.target.deep_view(), self.payload.deep_view())
    }
}

impl Encode for SendPacket {
    open spec fn wire(&self) -> Seq<u8> {
        self.target.wire() + self.payload.wire()
    }

    open spec fn encodable(&self) -> bool {
        true
    }

    fn encode<W: WriteBuffer>(&self, write_buffer: &mut W) -> (r: Result<usize, W::Error>) {
        (&self.target, &self.payload).encode(write_buffer)
    }
}

/// What a key and then bytes to the end of `input` read as.
pub open spec fn parse_key_and_rest(input: Seq<u8>) -> Option<((Seq<u8>, Seq<u8>), nat)> {
    match PublicKey::parse(input) {
        Some((key, used)) => match Vec::<u8>::parse(input.skip(used as int)) {
            Some((payload, rest)) => Some(((key, payload), used + rest)),
            None => None,
        },
        None => None,
    }
}

/// Read a key and then bytes to the end of the buffer.
pub fn decode_key_and_rest<R: ReadBuffer>(read_buffer: &mut R) -> (r: Result<
    (PublicKey, Vec<u8>),
    DecodeError,
>)
    ensures
        match parse_key_and_rest(old(read_buffer).remaining()) {
            Some((value, used)) => {
                &&& r matches Ok(decoded)
                &&& (decoded.0.deep_view(), decoded.1.deep_view()) == value
                &&& final(read_buffer).remaining() == old(read_buffer).remaining().skip(used as int)
            },
            None => r is Err,
        },
        final(read_buffer).remaining().len() <= old(read_buffer).remaining().len(),
{
    let ghost input = read_buffer.remaining();
    let key = match PublicKey::decode(read_buffer) {
        Ok(key) => key,
        Err(e) => {
            return Err(e);
        },
    };
    let payload = match Vec::<u8>::decode(read_buffer) {
        Ok(payload) => payload,
        Err(e) => {
            return Err(e);
        },
    };
    Ok((key, payload))
}

impl Decode for SendPacket {
    open spec fn parse(input: Seq<u8>) -> Option<((Seq<u8>, Seq<u8>), nat)> {
        parse_key_and_rest(input)
    }

    proof fn lemma_parse_in_bounds(input: Seq<u8>) {
    }

    fn decode<R: ReadBuffer>(read_buffer: &mut R) -> (r: Result<Self, DecodeError>) {
        match decode_key_and_rest(read_buffer) {
            Ok((target, payload)) => Ok(SendPacket { target, payload }),
            Err(e) => Err(e),
        }
    }
}

/// A packet for a client; the key in front of the payload names who sent it.
#[derive(Debug)]
pub struct RecvPacket {
    pub target: PublicKey,
    pub payload: Vec<u8>,
}

impl DeepView for RecvPacket {
    type V = (Seq<u8>, Seq<u8>);

    open spec fn deep_view(&self) -> (Seq<u8>, Seq<u8>) {
        (self.target.deep_view(), self.payload.deep_view())
    }
}

impl Encode for RecvPacket {
    open spec fn wire(&self) -> Seq<u8> {
        self.target.wire() + self.payload.wire()
    }

    open spec fn encodable(&self) -> bool {
        true
    }

    fn encode<W: WriteBuffer>(&self, write_buffer: &mut W) -> (r: Result<usize, W::Error>) {
        (&self.target, &self.payload).encode(write_buffer)
    }
}

impl Decode for RecvPacket {
    open spec fn parse(input: Seq<u8>) -> Option<((Seq<u8>, Seq<u8>), nat)> {
        parse_key_and_rest(input)
    }

    proof fn lemma_parse_in_bounds(input: Seq<u8>) {
    }

    fn decode<R: ReadBuffer>(read_buffer: &mut R) -> (r: Result<Self, DecodeError>) {
        match decode_key_and_rest(read_buffer) {
            Ok((target, payload)) => Ok(RecvPacket { target, payload }),
            Err(e) => Err(e),
        }
    }
}

/// A packet that one relay hands to another for a client of the other.
pub struct ForwardPacket {
    pub source: PublicKey,
    pub target: PublicKey,
    pub payload: Vec<u8>,
}

impl DeepView for ForwardPacket {
    type V = (Seq<u8>, Seq<u8>, Seq<u8>);

    open spec fn deep_view(&self) -> (Seq<u8>, Seq<u8>, Seq<u8>) {
        (self.source.deep_view(), self.target.deep_view(), self.payload.deep_view())
    }
}

impl ForwardPacket {
    /// The packet from `source` for `target`.
    pub fn new(source: PublicKey, target: PublicKey, payload: Vec<u8>) -> (packet: Self)
        ensures
            packet.source == source,
            packet.target == target,
            packet.payload == payload,
    {
        ForwardPacket { source, target, payload }
    }

    /// This consumes self.
    pub fn frame(self) -> (frame: Frame<ForwardPacket>)
        ensures
            frame.frame_type == FrameType::ForwardPacket,
            frame.inner.value() == self,
    {
        Frame { frame_type: FrameType::ForwardPacket, inner: SizeWrapper::new(self) }
    }
}

impl Encode for ForwardPacket {
    open spec fn wire(&self) -> Seq<u8> {
        self.source.wire() + self.target.wire() + self.payload.wire()
    }

    open spec fn encodable(&self) -> bool {
        true
    }

    fn encode<W: WriteBuffer>(&self, write_buffer: &mut W) -> (r: Result<usize, W::Error>) {
        (&self.source, (&self.target, &self.payload)).encode(write_buffer)
    }
}

impl Decode for ForwardPacket {
    open spec fn parse(input: Seq<u8>) -> Option<((Seq<u8>, Seq<u8>, Seq<u8>), nat)> {
        match PublicKey::parse(input) {
            Some((source, used)) => match parse_key_and_rest(input.skip(used as int)) {
                Some(((target, payload), rest)) => Some(((source, target, payload), used + rest)),
                None => None,
            },
            None => None,
        }
    }

    proof fn lemma_parse_in_bounds(input: Seq<u8>) {
    }

    fn decode<R: ReadBuffer>(read_buffer: &mut R) -> (r: Result<Self, DecodeError>) {
        let ghost input = read_buffer.remaining();
        let source = match PublicKey::decode(read_buffer) {
            Ok(source) => source,
            Err(e) => {
                return Err(e);
            },
        };
        let (target, payload) = match decode_key_and_rest(read_buffer) {
            Ok(decoded) => decoded,
            Err(e) => {
                return Err(e);
            },
        };
        Ok(ForwardPacket { source, target, payload })
    }
}

/// Notice that the owner of a key can be reached through the sender.
#[derive(Debug)]
pub struct PeerPresent {
    pub public_key: PublicKey,
}

impl DeepView for PeerPresent {
    type V = Seq<u8>;

    open spec fn deep_view(&self) -> Seq<u8> {
        self.public_key.deep_view()
    }
}

impl Encode for PeerPresent {
    open spec fn wire(&self) -> Seq<u8> {
        self.public_key.wire()
    }

    open spec fn encodable(&self) -> bool {
        true
    }

    fn encode<W: WriteBuffer>(&self, write_buffer: &mut W) -> (r: Result<usize, W::Error>) {
        self.public_key.encode(write_buffer)
    }
}

impl Decode for PeerPresent {
    open spec fn parse(input: Seq<u8>) -> Option<(Seq<u8>, nat)> {
        PublicKey::parse(input)
    }

    proof fn lemma_parse_in_bounds(input: Seq<u8>) {
    }

    fn decode<R: ReadBuffer>(read_buffer: &mut R) -> (r: Result<Self, DecodeError>) {
        match PublicKey::decode(read_buffer) {
            Ok(public_key) => Ok(PeerPresent { public_key }),
            Err(e) => Err(e),
        }
    }
}

/// How one relay of a mesh subscribes to the clients of another.
pub struct WatchConns {
    pub data: Vec<u8>,
}

impl Default for WatchConns {
    /// The subscription without any bytes.
    fn default() -> (watch_conns: Self)
        ensures
            watch_conns.data@ == Seq::<u8>::empty(),
    {
        WatchConns { data: Vec::new() }
    }
}

impl DeepView for WatchConns {
    type V = Seq<u8>;

    open spec fn deep_view(&self) -> Seq<u8> {
        self.data.deep_view()
    }
}

impl Encode for WatchConns {
    open spec fn wire(&self) -> Seq<u8> {
        self.data.wire()
    }

    open spec fn encodable(&self) -> bool {
        true
    }

    fn encode<W: WriteBuffer>(&self, write_buffer: &mut W) -> (r: Result<usize, W::Error>) {
        self.data.encode(write_buffer)
    }
}

impl Decode for WatchConns {
    open spec fn parse(input: Seq<u8>) -> Option<(Seq<u8>, nat)> {
        Vec::<u8>::parse(input)
    }

    proof fn lemma_parse_in_bounds(input: Seq<u8>) {
    }

    fn decode<R: ReadBuffer>(read_buffer: &mut R) -> (r: Result<Self, DecodeError>) {
        match Vec::<u8>::decode(read_buffer) {
            Ok(data) => Ok(WatchConns { data }),
            Err(e) => Err(e),
        }
    }
}

/// The five bytes in front of every frame: its type and the length of its body.
pub struct Header {
    pub frame_type: FrameType,
    pub size: u32,
}

impl DeepView for Header {
    type V = (FrameType, u32);

    open spec fn deep_view(&self) -> (FrameType, u32) {
        (self.frame_type, self.size)
    }
}

impl Decode for Header {
    open spec fn parse(input: Seq<u8>) -> Option<((FrameType, u32), nat)> {
        match FrameType::parse(input) {
            Some((frame_type, used)) => match u32::parse(input.skip(used as int)) {
                Some((size, more)) => Some(((frame_type, size), used + more)),
                None => None,
            },
            None => None,
        }
    }

    proof fn lemma_parse_in_bounds(input: Seq<u8>) {
    }

    fn decode<R: ReadBuffer>(read_buffer: &mut R) -> (r: Result<Self, DecodeError>) {
        let ghost input = read_buffer.remaining();
        let frame_type = match FrameType::decode(read_buffer) {
            Ok(frame_type) => frame_type,
            Err(e) => {
                return Err(e);
            },
        };
        let size = match u32::decode(read_buffer) {
            Ok(size) => size,
            Err(e) => {
                return Err(e);
            },
        };
        Ok(Header { frame_type, size })
    }
}

} // verus!
