//! What the reader and the writer of one client connection decide.
use crate::codec::decode::Decode;
use crate::crypto::PublicKey;
use crate::directory::SinkId;
use crate::error::RelayError;
use crate::inout::Message;
use crate::proto::data::{ForwardPacket, Frame, FrameType, PeerPresent, SendPacket};
use crate::proto::{
    frame_of, write_forward_packet, write_peer_present, write_recv_packet, MAX_BODY_SIZE,
};
use crate::service::{ServiceCommand, ServiceCommandView};
use vstd::prelude::*;

verus! {

/// What the writer of a connection is asked to do.
#[derive(Debug, Clone)]
pub enum WriteLoopCommands {
    /// Deliver a packet: to the owner of the connection, or through it to another relay.
    SendPacket { source: PublicKey, target: PublicKey, payload: Vec<u8> },
    /// Tell the other side that the owner of this key is reachable here.
    PeerPresent(PublicKey),
    /// Stop writing.
    Stop,
}

/// A command for a writer, as plain values.
pub enum CommandView {
    SendPacket { source: Seq<u8>, target: Seq<u8>, payload: Seq<u8> },
    PeerPresent(Seq<u8>),
    Stop,
}

impl View for WriteLoopCommands {
    type V = CommandView;

    open spec fn view(&self) -> CommandView {
        match self {
            WriteLoopCommands::SendPacket { source, target, payload } => CommandView::SendPacket {
                source: source@,
                target: target@,
                payload: payload@,
            },
            WriteLoopCommands::PeerPresent(key) => CommandView::PeerPresent(key@),
            WriteLoopCommands::Stop => CommandView::Stop,
        }
    }
}

/// What a writer does with one command.
pub enum WriteStep {
    /// Write these bytes to the connection.
    Emit(Vec<u8>),
    /// Stop writing, in good order.
    Stop,
    /// Close the connection.
    Close(RelayError),
}

/// What a writer does with one command, as plain values.
pub enum WriteVerdict {
    Emit(Seq<u8>),
    Stop,
    Close(RelayError),
}

impl View for WriteStep {
    type V = WriteVerdict;

    open spec fn view(&self) -> WriteVerdict {
        match self {
            WriteStep::Emit(bytes) => WriteVerdict::Emit(bytes@),
            WriteStep::Stop => WriteVerdict::Stop,
            WriteStep::Close(fault) => WriteVerdict::Close(*fault),
        }
    }
}

/// Whether the writer of the connection of the owner of `pk` can be asked this: a packet
/// for somebody else goes only to a connection that can mesh.
pub open spec fn writable(command: CommandView, pk: Seq<u8>, can_mesh: bool) -> bool {
    command matches CommandView::SendPacket { source, target, payload } ==> can_mesh || target
        == pk
}

/// What the writer of the connection of the owner of `pk` does with `command`. A packet for
/// the owner goes out as received from its source; a packet for somebody else goes out to be
/// forwarded, with both keys in front.
pub open spec fn write_verdict(command: CommandView, pk: Seq<u8>, can_mesh: bool) -> WriteVerdict {
    match command {
        CommandView::SendPacket { source, target, payload } => if target == pk {
            if payload.len() + 32 <= MAX_BODY_SIZE {
                WriteVerdict::Emit(frame_of(FrameType::RecvPacket, source + payload))
            } else {
                WriteVerdict::Close(RelayError::FrameTooLong)
            }
        } else {
            if payload.len() + 64 <= MAX_BODY_SIZE {
                WriteVerdict::Emit(frame_of(FrameType::ForwardPacket, source + target + payload))
            } else {
                WriteVerdict::Close(RelayError::FrameTooLong)
            }
        },
        CommandView::PeerPresent(key) => WriteVerdict::Emit(frame_of(FrameType::PeerPresent, key)),
        CommandView::Stop => WriteVerdict::Stop,
    }
}

/// What the writer of the connection of the owner of `pk` does with `command`.
pub fn write_step(command: WriteLoopCommands, pk: &PublicKey, can_mesh: bool) -> (step: WriteStep)
    requires
        writable(command@, pk@, can_mesh),
    ensures
        step@ == write_verdict(command@, pk@, can_mesh),
{
    match command {
        WriteLoopCommands::SendPacket { source, target, payload } => {
            if target == *pk {
                match write_recv_packet(source, payload) {
                    Ok(bytes) => WriteStep::Emit(bytes),
                    Err(fault) => WriteStep::Close(fault),
                }
            } else {
                let forward_packet = ForwardPacket::new(source, target, payload);
                match write_forward_packet(forward_packet) {
                    Ok(bytes) => WriteStep::Emit(bytes),
                    Err(fault) => WriteStep::Close(fault),
                }
            }
        },
        WriteLoopCommands::PeerPresent(key) => WriteStep::Emit(write_peer_present(&key)),
        WriteLoopCommands::Stop => WriteStep::Stop,
    }
}

/// What a reader does with one frame.
pub enum ReadStep {
    /// Hand this command to the service.
    Forward(ServiceCommand),
    /// Close the connection.
    Close(RelayError),
}

/// What a reader does with one frame, as plain values.
pub enum ReadVerdict {
    Forward(ServiceCommandView),
    Close(RelayError),
}

impl View for ReadStep {
    type V = ReadVerdict;

    open spec fn view(&self) -> ReadVerdict {
        match self {
            ReadStep::Forward(command) => ReadVerdict::Forward(command@),
            ReadStep::Close(fault) => ReadVerdict::Close(*fault),
        }
    }
}

/// What the reader of the connection of the owner of `pk`, whose writer has the sink
/// `sink`, does with a frame of type `ty` that is `buffer` on the wire.
pub open spec fn read_verdict(
    ty: FrameType,
    buffer: Seq<u8>,
    pk: Seq<u8>,
    can_mesh: bool,
    sink: SinkId,
) -> ReadVerdict {
    match ty {
        FrameType::SendPacket => match Frame::<SendPacket>::parse(buffer) {
            Some(((_, (target, payload)), _)) => ReadVerdict::Forward(
                ServiceCommandView::SendPacket { source: pk, target, payload },
            ),
            None => ReadVerdict::Close(RelayError::Decode),
        },
        FrameType::WatchConns => if can_mesh {
            ReadVerdict::Forward(ServiceCommandView::SubscribeForPeerChanges(pk, sink))
        } else {
            ReadVerdict::Close(RelayError::NotAMeshPeer)
        },
        FrameType::PeerPresent => match Frame::<PeerPresent>::parse(buffer) {
            Some(((_, key), _)) => ReadVerdict::Forward(ServiceCommandView::PeerPresent(key, sink)),
            None => ReadVerdict::Close(RelayError::Decode),
        },
        FrameType::ForwardPacket => match Frame::<ForwardPacket>::parse(buffer) {
            Some(((_, (source, target, payload)), _)) => ReadVerdict::Forward(
                ServiceCommandView::SendPacket { source, target, payload },
            ),
            None => ReadVerdict::Close(RelayError::Decode),
        },
        other => ReadVerdict::Close(RelayError::UnexpectedFrame(other)),
    }
}

/// The packet in a send packet frame, as a command for the service.
pub fn read_send_packet(buffer: &[u8], pk: &PublicKey) -> (step: ReadStep)
    ensures
        step@ == match Frame::<SendPacket>::parse(buffer@) {
            Some(((_, (target, payload)), _)) => ReadVerdict::Forward(
                ServiceCommandView::SendPacket { source: pk@, target, payload },
            ),
            None => ReadVerdict::Close(RelayError::Decode),
        },
{
    let mut rest: &[u8] = buffer;
    match Frame::<SendPacket>::decode(&mut rest) {
        Ok(frame) => {
            let send_packet = frame.inner.into_inner();
            assert(send_packet.payload.deep_view() =~= send_packet.payload@);
            ReadStep::Forward(
                ServiceCommand::SendPacket {
                    source: *pk,
                    target: send_packet.target,
                    payload: send_packet.payload,
                },
            )
        },
        Err(_) => ReadStep::Close(RelayError::Decode),
    }
}

/// The key in a peer present frame, as a command for the service.
pub fn read_peer_present(buffer: &[u8], sink: SinkId) -> (step: ReadStep)
    ensures
        step@ == match Frame::<PeerPresent>::parse(buffer@) {
            Some(((_, key), _)) => ReadVerdict::Forward(ServiceCommandView::PeerPresent(key, sink)),
            None => ReadVerdict::Close(RelayError::Decode),
        },
{
    let mut rest: &[u8] = buffer;
    match Frame::<PeerPresent>::decode(&mut rest) {
        Ok(frame) => {
            let peer_present = frame.inner.into_inner();
            ReadStep::Forward(ServiceCommand::PeerPresent(peer_present.public_key, sink))
        },
        Err(_) => ReadStep::Close(RelayError::Decode),
    }
}

/// The packet in a forward packet frame, as a command for the service.
pub fn read_forward_packet(buffer: &[u8]) -> (step: ReadStep)
    ensures
        step@ == match Frame::<ForwardPacket>::parse(buffer@) {
            Some(((_, (source, target, payload)), _)) => ReadVerdict::Forward(
                ServiceCommandView::SendPacket { source, target, payload },
            ),
            None => ReadVerdict::Close(RelayError::Decode),
        },
{
    let mut rest: &[u8] = buffer;
    match Frame::<ForwardPacket>::decode(&mut rest) {
        Ok(frame) => {
            let forward_packet = frame.inner.into_inner();
            assert(forward_packet.payload.deep_view() =~= forward_packet.payload@);
            ReadStep::Forward(
                ServiceCommand::SendPacket {
                    source: forward_packet.source,
                    target: forward_packet.target,
                    payload: forward_packet.payload,
                },
            )
        },
        Err(_) => ReadStep::Close(RelayError::Decode),
    }
}

/// What the reader of the connection of the owner of `pk`, whose writer has the sink
/// `our_sink`, does with `message`.
pub fn read_step(message: &Message, pk: &PublicKey, can_mesh: bool, our_sink: SinkId) -> (step:
    ReadStep)
    ensures
        step@ == read_verdict(message.ty, message.buffer@, pk@, can_mesh, our_sink),
{
    match message.ty {
        FrameType::SendPacket => read_send_packet(message.buffer.as_slice(), pk),
        FrameType::WatchConns => {
            if !can_mesh {
                ReadStep::Close(RelayError::NotAMeshPeer)
            } else {
                ReadStep::Forward(ServiceCommand::SubscribeForPeerChanges(*pk, our_sink))
            }
        },
        FrameType::PeerPresent => read_peer_present(message.buffer.as_slice(), our_sink),
        FrameType::ForwardPacket => read_forward_packet(message.buffer.as_slice()),
        frame_type => ReadStep::Close(RelayError::UnexpectedFrame(frame_type)),
    }
}

/// One client connection after the handshake: who its owner is, whether it may mesh, and
/// the sink of its writer.
#[derive(Debug, Clone, Copy)]
pub struct Client {
    pk: PublicKey,
    can_mesh: bool,
    sink: SinkId,
}

impl Client {
    /// The public key of the owner of the connection.
    pub closed spec fn owner(&self) -> Seq<u8> {
        self.pk@
    }

    /// Whether the connection authenticated with the mesh key of the relay.
    pub closed spec fn meshes(&self) -> bool {
        self.can_mesh
    }

    /// The sink of the writer of the connection.
    pub closed spec fn own_sink(&self) -> SinkId {
        self.sink
    }

    /// The connection of the owner of `pk`, whose writer has the sink `sink`.
    pub fn new(pk: PublicKey, can_mesh: bool, sink: SinkId) -> (client: Self)
        ensures
            client.owner() == pk@,
            client.meshes() == can_mesh,
            client.own_sink() == sink,
    {
        Client { pk, can_mesh, sink }
    }

    /// The public key of the owner of the connection.
    pub fn public_key(&self) -> (pk: PublicKey)
        ensures
            pk@ == self.owner(),
    {
        self.pk
    }

    /// Whether the connection authenticated with the mesh key of the relay.
    pub fn can_mesh(&self) -> (can_mesh: bool)
        ensures
            can_mesh == self.meshes(),
    {
        self.can_mesh
    }

    /// What the reader of this connection does with `message`.
    pub fn read_step(&self, message: &Message) -> (step: ReadStep)
        ensures
            step@ == read_verdict(
                message.ty,
                message.buffer@,
                self.owner(),
                self.meshes(),
                self.own_sink(),
            ),
    {
        read_step(message, &self.pk, self.can_mesh, self.sink)
    }

    /// Whether the writer of this connection can be asked this.
    pub fn accepts(&self, command: &WriteLoopCommands) -> (accepted: bool)
        ensures
            accepted == writable(command@, self.owner(), self.meshes()),
    {
        match command {
            WriteLoopCommands::SendPacket { source, target, payload } => self.can_mesh || *target
                == self.pk,
            _ => true,
        }
    }

    /// What the writer of this connection does with `command`.
    pub fn write_step(&self, command: WriteLoopCommands) -> (step: WriteStep)
        requires
            writable(command@, self.owner(), self.meshes()),
        ensures
            step@ == write_verdict(command@, self.owner(), self.meshes()),
    {
        write_step(command, &self.pk, self.can_mesh)
    }
}

} // verus!
