//! The outbound side of the mesh: what a relay does on a connection that it dialed to a
//! mesh peer.
use crate::client::{
    read_forward_packet, read_peer_present, write_step as client_write_step, write_verdict,
    ReadStep, ReadVerdict, WriteLoopCommands, WriteStep,
};
use crate::codec::decode::Decode;
use crate::crypto::{salsa_box_seal, x25519_public, PublicKey, SecretKey};
use crate::directory::SinkId;
use crate::error::RelayError;
use crate::inout::Message;
use crate::proto::data::{
    client_info_json, ForwardPacket, Frame, FrameType, PeerPresent,
};
use crate::proto::http::{
    connect_http, httparse_response, leftovers_verdict, upgrade_request, write_upgrade_request,
};
use crate::proto::{
    exchange_keys_with_nonce, frame_of, read_server_info, server_key_read, write_watch_conns,
    MAX_BODY_SIZE,
};
use crate::service::ServiceCommandView;
use vstd::prelude::*;
use vstd::string::StringSliceAdditionalSpecFns;

verus! {

/// What the reader of a connection to a mesh peer, whose writer has the sink `sink`, does
/// with a frame of type `ty` that is `buffer` on the wire.
pub open spec fn read_verdict(ty: FrameType, buffer: Seq<u8>, sink: SinkId) -> ReadVerdict {
    match ty {
        FrameType::PeerPresent => match Frame::<PeerPresent>::parse(buffer) {
            Some(((_, key), _)) => ReadVerdict::Forward(ServiceCommandView::PeerPresent(key, sink)),
            None => ReadVerdict::Close(RelayError::Decode),
        },
        FrameType::ForwardPacket => match Frame::<ForwardPacket>::parse(buffer) {
            Some(((_, (source, target, payload)), _)) => ReadVerdict::Forward(
                ServiceCommandView::SendPacket { source, target, payload },
            ),
            None => ReadVerdict::Close(RelayError::Decode),
        },
        other => ReadVerdict::Close(RelayError::UnexpectedFrame(other)),
    }
}

/// What the reader of a connection to a mesh peer, whose writer has the sink `sender`, does
/// with `message`.
pub fn read_step(message: &Message, sender: SinkId) -> (step: ReadStep)
    ensures
        step@ == read_verdict(message.ty, message.buffer@, sender),
{
    match message.ty {
        FrameType::PeerPresent => read_peer_present(message.buffer.as_slice(), sender),
        FrameType::ForwardPacket => read_forward_packet(message.buffer.as_slice()),
        frame_type => ReadStep::Close(RelayError::UnexpectedFrame(frame_type)),
    }
}

/// What the writer of a connection to the mesh peer that owns `peer` does with `command`:
/// what the writer of any connection that can mesh does.
pub fn write_step(command: WriteLoopCommands, peer: &PublicKey) -> (step: WriteStep)
    ensures
        step@ == write_verdict(command@, peer@, true),
{
    client_write_step(command, peer, true)
}

/// Where the handshake with a mesh peer stands.
pub enum MeshStage {
    /// Nothing was sent yet.
    Idle,
    /// The upgrade request went out: the HTTP response is due.
    Upgrade,
    /// The HTTP response came: the server key is due.
    ServerKey,
    /// The client info went out to the owner of this key: the server info is due.
    ServerInfo(PublicKey),
    /// The handshake is over: the peer owns this key, and is asked for its clients.
    Running(PublicKey),
    /// The handshake failed.
    Done,
}

/// The outbound connection of a relay to one mesh peer: the handshake as a client, and the
/// subscription to the clients of the peer.
pub struct MeshClient {
    secret_key: SecretKey,
    meshkey: String,
    stage: MeshStage,
}

impl MeshClient {
    /// Where the handshake stands.
    pub closed spec fn stage(&self) -> MeshStage {
        self.stage
    }

    /// The secret key of this relay.
    pub closed spec fn secret(&self) -> Seq<u8> {
        self.secret_key@
    }

    /// The mesh key that this relay presents.
    pub closed spec fn meshkey(&self) -> Seq<u8> {
        vstd::utf8::encode_utf8(self.meshkey@)
    }

    /// The connection of the relay that owns `secret_key` to a mesh peer, before anything is
    /// sent.
    pub fn new(secret_key: SecretKey, meshkey: String) -> (client: Self)
        ensures
            client.stage() is Idle,
            client.secret() == secret_key@,
            client.meshkey() == vstd::utf8::encode_utf8(meshkey@),
    {
        MeshClient { secret_key, meshkey, stage: MeshStage::Idle }
    }

    /// The public key of the mesh peer, once it is known.
    pub fn peer(&self) -> (peer: Option<PublicKey>)
        ensures
            peer == match self.stage() {
                MeshStage::ServerInfo(key) => Some(key),
                MeshStage::Running(key) => Some(key),
                _ => None,
            },
    {
        match self.stage {
            MeshStage::ServerInfo(key) => Some(key),
            MeshStage::Running(key) => Some(key),
            _ => None,
        }
    }

    /// The HTTP upgrade request with which the handshake starts.
    pub fn start(&mut self, version: &str, os: &str) -> (r: Result<Vec<u8>, RelayError>)
        ensures
            final(self).secret() == old(self).secret(),
            final(self).meshkey() == old(self).meshkey(),
            match old(self).stage() {
                MeshStage::Idle => {
                    &&& r matches Ok(request)
                    &&& request@ == upgrade_request(version.spec_bytes(), os.spec_bytes())
                    &&& final(self).stage() is Upgrade
                },
                _ => r matches Err(e) && e == RelayError::OutOfTurn && final(self).stage() is Done,
            },
    {
        match self.stage {
            MeshStage::Idle => {
                self.stage = MeshStage::Upgrade;
                Ok(write_upgrade_request(version, os))
            },
            _ => {
                self.stage = MeshStage::Done;
                Err(RelayError::OutOfTurn)
            },
        }
    }

    /// What is left of the read that brought the HTTP response: bytes of the frame stream,
    /// which belong in front of what is read next.
    pub fn on_upgrade_response(&mut self, data: &[u8]) -> (r: Result<Vec<u8>, RelayError>)
        ensures
            final(self).secret() == old(self).secret(),
            final(self).meshkey() == old(self).meshkey(),
            match old(self).stage() {
                MeshStage::Upgrade => match leftovers_verdict(data@, httparse_response(data@)) {
                    Ok(rest) => {
                        &&& r matches Ok(leftovers)
                        &&& leftovers@ == rest
                        &&& final(self).stage() is ServerKey
                    },
                    Err(fault) => r matches Err(e) && e == fault && final(self).stage() is Done,
                },
                _ => r matches Err(e) && e == RelayError::OutOfTurn && final(self).stage() is Done,
            },
    {
        match self.stage {
            MeshStage::Upgrade => {
                match connect_http(data) {
                    Ok(leftovers) => {
                        self.stage = MeshStage::ServerKey;
                        Ok(leftovers)
                    },
                    Err(fault) => {
                        self.stage = MeshStage::Done;
                        Err(fault)
                    },
                }
            },
            _ => {
                self.stage = MeshStage::Done;
                Err(RelayError::OutOfTurn)
            },
        }
    }

    /// The answer to the server key in `buf`: the client info frame, with the mesh key
    /// sealed in it under `nonce`.
    pub fn on_server_key(&mut self, buf: &[u8], nonce: [u8; 24]) -> (r: Result<Vec<u8>, RelayError>)
        ensures
            final(self).secret() == old(self).secret(),
            final(self).meshkey() == old(self).meshkey(),
            match old(self).stage() {
                MeshStage::ServerKey => match server_key_read(buf@) {
                    Err(fault) => r matches Err(e) && e == fault && final(self).stage() is Done,
                    Ok(server_key) => match salsa_box_seal(
                        server_key,
                        old(self).secret(),
                        nonce@,
                        client_info_json(old(self).meshkey()),
                    ) {
                        None => r matches Err(e) && e == RelayError::Seal && final(self).stage() is Done,
                        Some(sealed) => if sealed.len() + 56 <= MAX_BODY_SIZE {
                            &&& r matches Ok(answer)
                            &&& answer@ == frame_of(
                                FrameType::ClientInfo,
                                x25519_public(old(self).secret()) + nonce@ + sealed,
                            )
                            &&& final(self).stage() matches MeshStage::ServerInfo(peer)
                            &&& peer@ == server_key
                        } else {
                            r matches Err(e) && e == RelayError::FrameTooLong && final(self).stage() is Done
                        },
                    },
                },
                _ => r matches Err(e) && e == RelayError::OutOfTurn && final(self).stage() is Done,
            },
    {
        match self.stage {
            MeshStage::ServerKey => {
                match exchange_keys_with_nonce(
                    buf,
                    self.secret_key,
                    Some(self.meshkey.as_str()),
                    nonce,
                ) {
                    Ok((server_key, answer)) => {
                        self.stage = MeshStage::ServerInfo(server_key);
                        Ok(answer)
                    },
                    Err(fault) => {
                        self.stage = MeshStage::Done;
                        Err(fault)
                    },
                }
            },
            _ => {
                self.stage = MeshStage::Done;
                Err(RelayError::OutOfTurn)
            },
        }
    }

    /// The answer to the server info in `buf`: the frame that subscribes to the clients of
    /// the peer.
    pub fn on_server_info(&mut self, buf: &[u8]) -> (r: Result<Vec<u8>, RelayError>)
        ensures
            final(self).secret() == old(self).secret(),
            final(self).meshkey() == old(self).meshkey(),
            match old(self).stage() {
                MeshStage::ServerInfo(peer) => if buf@.len() > 0 && FrameType::spec_from_tag(
                    buf@[0],
                ) == FrameType::ServerInfo {
                    &&& r matches Ok(answer)
                    &&& answer@ == frame_of(FrameType::WatchConns, Seq::empty())
                    &&& final(self).stage() == MeshStage::Running(peer)
                } else {
                    &&& r matches Err(e)
                    &&& e == RelayError::UnexpectedFrame(
                        if buf@.len() > 0 {
                            FrameType::spec_from_tag(buf@[0])
                        } else {
                            FrameType::Unkonow(0)
                        },
                    )
                    &&& final(self).stage() is Done
                },
                _ => r matches Err(e) && e == RelayError::OutOfTurn && final(self).stage() is Done,
            },
    {
        match self.stage {
            MeshStage::ServerInfo(peer) => {
                match read_server_info(buf) {
                    Ok(()) => {
                        self.stage = MeshStage::Running(peer);
                        Ok(write_watch_conns())
                    },
                    Err(fault) => {
                        self.stage = MeshStage::Done;
                        Err(fault)
                    },
                }
            },
            _ => {
                self.stage = MeshStage::Done;
                Err(RelayError::OutOfTurn)
            },
        }
    }
}

} // verus!
