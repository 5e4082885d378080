//! The routing service: the directory of the clients and of the mesh peers of one relay,
//! and what each command does to it.
use crate::client::{CommandView, WriteLoopCommands};
use crate::crypto::PublicKey;
use crate::directory::{lookup, put, without_sink, Directory, SinkId};
use crate::error::RelayError;
use vstd::prelude::*;

verus! {

/// What the service is asked to do.
pub enum ServiceCommand {
    /// Stop serving.
    Stop,
    /// A client finished the handshake: enter it under its key, with the sink of its writer.
    Register { client: PublicKey, sink: SinkId, meshkey: Option<String> },
    /// Deliver a packet to the owner of `target`.
    SendPacket { source: PublicKey, target: PublicKey, payload: Vec<u8> },
    /// A mesh peer wants to hear of the clients of this relay.
    SubscribeForPeerChanges(PublicKey, SinkId),
    /// The owner of this key is reachable through this sink.
    PeerPresent(PublicKey, SinkId),
}

/// A mesh key, or none, as plain values.
pub open spec fn meshkey_view(meshkey: Option<String>) -> Option<Seq<char>> {
    match meshkey {
        Some(key) => Some(key@),
        None => None,
    }
}

/// A command for the service, as plain values.
pub enum ServiceCommandView {
    Stop,
    Register { client: Seq<u8>, sink: SinkId, meshkey: Option<Seq<char>> },
    SendPacket { source: Seq<u8>, target: Seq<u8>, payload: Seq<u8> },
    SubscribeForPeerChanges(Seq<u8>, SinkId),
    PeerPresent(Seq<u8>, SinkId),
}

impl View for ServiceCommand {
    type V = ServiceCommandView;

    open spec fn view(&self) -> ServiceCommandView {
        match self {
            ServiceCommand::Stop => ServiceCommandView::Stop,
            ServiceCommand::Register { client, sink, meshkey } => ServiceCommandView::Register {
                client: client@,
                sink: *sink,
                meshkey: meshkey_view(*meshkey),
            },
            ServiceCommand::SendPacket { source, target, payload } => ServiceCommandView::SendPacket {
                source: source@,
                target: target@,
                payload: payload@,
            },
            ServiceCommand::SubscribeForPeerChanges(peer, sink) => {
                ServiceCommandView::SubscribeForPeerChanges(peer@, *sink)
            },
            ServiceCommand::PeerPresent(key, sink) => ServiceCommandView::PeerPresent(key@, *sink),
        }
    }
}

/// A command on its way to the writer behind a sink.
#[derive(Debug, Clone)]
pub struct Delivery {
    pub sink: SinkId,
    pub command: WriteLoopCommands,
}

impl View for Delivery {
    type V = (SinkId, CommandView);

    open spec fn view(&self) -> (SinkId, CommandView) {
        (self.sink, self.command@)
    }
}

/// The deliveries as plain values.
pub open spec fn delivery_views(deliveries: Seq<Delivery>) -> Seq<(SinkId, CommandView)> {
    Seq::new(deliveries.len(), |i: int| deliveries[i]@)
}

/// What the service answers to a command.
pub enum ServiceStep {
    /// Hand each of these commands to its sink, in this order, and go on.
    Deliver(Vec<Delivery>),
    /// The client is not admitted; its connection is closed. Go on.
    Rejected(RelayError),
    /// Stop serving.
    Stop,
}

/// What the service answers to a command, as plain values.
pub enum ServiceVerdict {
    Deliver(Seq<(SinkId, CommandView)>),
    Rejected(RelayError),
    Stop,
}

impl View for ServiceStep {
    type V = ServiceVerdict;

    open spec fn view(&self) -> ServiceVerdict {
        match self {
            ServiceStep::Deliver(deliveries) => ServiceVerdict::Deliver(delivery_views(deliveries@)),
            ServiceStep::Rejected(fault) => ServiceVerdict::Rejected(*fault),
            ServiceStep::Stop => ServiceVerdict::Stop,
        }
    }
}

/// What the service knows: its clients, its mesh peers, and its mesh key if it has one.
pub struct ServiceState {
    pub clients: Seq<(Seq<u8>, SinkId)>,
    pub mesh: Seq<(Seq<u8>, SinkId)>,
    pub meshkey: Option<Seq<char>>,
}

/// Mesh admission: whether a client that presents `client` to a relay with the mesh key
/// `server` is admitted as a mesh peer (`true`) or as a plain client (`false`), or is not
/// admitted at all.
pub open spec fn admission(server: Option<Seq<char>>, client: Option<Seq<char>>) -> Result<
    bool,
    RelayError,
> {
    match (server, client) {
        (None, None) => Ok(false),
        (None, Some(_)) => Err(RelayError::MeshNotEnabled),
        (Some(_), None) => Ok(false),
        (Some(ours), Some(theirs)) => if ours == theirs {
            Ok(true)
        } else {
            Err(RelayError::MeshKeyMismatch)
        },
    }
}

/// The sink through which the owner of `target` is reached: that of a client first, else
/// that of a mesh peer, else none.
pub open spec fn route(
    clients: Seq<(Seq<u8>, SinkId)>,
    mesh: Seq<(Seq<u8>, SinkId)>,
    target: Seq<u8>,
) -> Option<SinkId> {
    match lookup(clients, target) {
        Some(sink) => Some(sink),
        None => lookup(mesh, target),
    }
}

/// The notice of the client `key` for every mesh peer, in the order of the peers.
pub open spec fn notifications(mesh: Seq<(Seq<u8>, SinkId)>, key: Seq<u8>) -> Seq<
    (SinkId, CommandView),
> {
    Seq::new(mesh.len(), |i: int| (mesh[i].1, CommandView::PeerPresent(key)))
}

/// The keys of `clients` that are no keys of `mesh`, in the order of the clients.
pub open spec fn absent_keys(clients: Seq<(Seq<u8>, SinkId)>, mesh: Seq<(Seq<u8>, SinkId)>) -> Seq<
    Seq<u8>,
>
    decreases clients.len(),
{
    if clients.len() == 0 {
        Seq::empty()
    } else {
        let front = absent_keys(clients.drop_last(), mesh);
        if lookup(mesh, clients.last().0) is None {
            front.push(clients.last().0)
        } else {
            front
        }
    }
}

/// The notice of each of `keys` for the sink `sink`, in the order of the keys.
pub open spec fn presence(keys: Seq<Seq<u8>>, sink: SinkId) -> Seq<(SinkId, CommandView)> {
    Seq::new(keys.len(), |i: int| (sink, CommandView::PeerPresent(keys[i])))
}

/// What a command makes of the state of the service, and what the service answers.
pub open spec fn step(state: ServiceState, command: ServiceCommandView) -> (
    ServiceState,
    ServiceVerdict,
) {
    match command {
        ServiceCommandView::Stop => (state, ServiceVerdict::Stop),
        ServiceCommandView::Register { client, sink, meshkey } => match admission(
            state.meshkey,
            meshkey,
        ) {
            Err(fault) => (state, ServiceVerdict::Rejected(fault)),
            Ok(_) => (
                ServiceState { clients: put(state.clients, client, sink), ..state },
                ServiceVerdict::Deliver(notifications(state.mesh, client)),
            ),
        },
        ServiceCommandView::SendPacket { source, target, payload } => (
            state,
            ServiceVerdict::Deliver(
                match route(state.clients, state.mesh, target) {
                    Some(sink) => seq![(sink, CommandView::SendPacket { source, target, payload })],
                    None => Seq::empty(),
                },
            ),
        ),
        ServiceCommandView::SubscribeForPeerChanges(peer, sink) => {
            let mesh = put(state.mesh, peer, sink);
            (
                ServiceState { mesh, ..state },
                ServiceVerdict::Deliver(presence(absent_keys(state.clients, mesh), sink)),
            )
        },
        ServiceCommandView::PeerPresent(key, sink) => (
            if lookup(state.clients, key) is None {
                ServiceState { clients: put(state.clients, key, sink), ..state }
            } else {
                state
            },
            ServiceVerdict::Deliver(Seq::empty()),
        ),
    }
}

/// A client that is admitted: whether as a mesh peer, and whom to tell.
pub struct Admitted {
    pub can_mesh: bool,
    pub deliveries: Vec<Delivery>,
}

/// The routing service of one relay.
pub struct DerpService {
    peers_sinks: Directory,
    mesh: Directory,
    meshkey: Option<String>,
}

impl View for DerpService {
    type V = ServiceState;

    closed spec fn view(&self) -> ServiceState {
        ServiceState {
            clients: self.peers_sinks@,
            mesh: self.mesh@,
            meshkey: meshkey_view(self.meshkey),
        }
    }
}

impl DerpService {
    /// The service of a relay with this mesh key, before anybody is known to it.
    pub fn new(meshkey: Option<String>) -> (service: Self)
        ensures
            service@.clients == Seq::<(Seq<u8>, SinkId)>::empty(),
            service@.mesh == Seq::<(Seq<u8>, SinkId)>::empty(),
            service@.meshkey == meshkey_view(meshkey),
    {
        DerpService { peers_sinks: Directory::new(), mesh: Directory::new(), meshkey }
    }

    /// Both directories hold each key at most once: a call tells the caller so, and does
    /// nothing else.
    pub fn keys_are_distinct(&self)
        ensures
            crate::directory::distinct_keys(self@.clients),
            crate::directory::distinct_keys(self@.mesh),
    {
        self.peers_sinks.keys_are_distinct();
        self.mesh.keys_are_distinct();
    }

    /// Whether a client that presents `client_meshkey` is admitted, and as what.
    pub fn admits(&self, client_meshkey: &Option<String>) -> (r: Result<bool, RelayError>)
        ensures
            r == admission(self@.meshkey, meshkey_view(*client_meshkey)),
    {
        match (&self.meshkey, client_meshkey) {
            (None, None) => Ok(false),
            (None, Some(_)) => Err(RelayError::MeshNotEnabled),
            (Some(_), None) => Ok(false),
            (Some(server_meshkey), Some(client_meshkey)) => {
                if *server_meshkey == *client_meshkey {
                    Ok(true)
                } else {
                    Err(RelayError::MeshKeyMismatch)
                }
            },
        }
    }

    /// The sink through which the owner of `target` is reached, if there is one.
    pub fn route(&self, target: &PublicKey) -> (sink: Option<SinkId>)
        ensures
            sink == route(self@.clients, self@.mesh, target@),
    {
        match self.peers_sinks.get(target) {
            Some(sink) => Some(sink),
            None => self.mesh.get(target),
        }
    }

    /// The notice of the client `client_pk` for every mesh peer.
    pub fn notify_all_mesh_peers(&self, client_pk: PublicKey) -> (deliveries: Vec<Delivery>)
        ensures
            delivery_views(deliveries@) == notifications(self@.mesh, client_pk@),
    {
        let sinks = self.mesh.sinks();
        let mut deliveries: Vec<Delivery> = Vec::new();
        let mut at: usize = 0;
        while at < sinks.len()
            invariant
                at <= sinks@.len(),
                sinks@.len() == self.mesh@.len(),
                forall|i: int| 0 <= i < sinks@.len() ==> sinks@[i] == self.mesh@[i].1,
                deliveries@.len() == at,
                forall|i: int|
                    0 <= i < at ==> (#[trigger] deliveries@[i])@ == (
                        self.mesh@[i].1,
                        CommandView::PeerPresent(client_pk@),
                    ),
            decreases sinks@.len() - at,
        {
            deliveries.push(
                Delivery { sink: sinks[at], command: WriteLoopCommands::PeerPresent(client_pk) },
            );
            at = at + 1;
        }
        deliveries
    }

    /// Enter a client that finished the handshake, if it is admitted: under its key, with
    /// the sink of its writer, in the place of whoever had the key before. Every mesh peer
    /// is to be told of it.
    pub fn add_new_client(&mut self, client_pk: PublicKey, sink: SinkId, meshkey: Option<String>) -> (r:
        Result<Admitted, RelayError>)
        ensures
            match admission(old(self)@.meshkey, meshkey_view(meshkey)) {
                Ok(can_mesh) => {
                    &&& r matches Ok(admitted)
                    &&& admitted.can_mesh == can_mesh
                    &&& delivery_views(admitted.deliveries@) == notifications(
                        old(self)@.mesh,
                        client_pk@,
                    )
                    &&& final(self)@ == (ServiceState {
                        clients: put(old(self)@.clients, client_pk@, sink),
                        ..old(self)@
                    })
                },
                Err(fault) => {
                    &&& r matches Err(e)
                    &&& e == fault
                    &&& final(self)@ == old(self)@
                },
            },
    {
        let can_mesh = match self.admits(&meshkey) {
            Ok(can_mesh) => can_mesh,
            Err(fault) => {
                return Err(fault);
            },
        };
        let _ = self.peers_sinks.insert(client_pk, sink);
        let deliveries = self.notify_all_mesh_peers(client_pk);
        Ok(Admitted { can_mesh, deliveries })
    }

    /// Enter a mesh peer that this relay dialed itself, with the sink of the writer of that
    /// connection.
    pub fn add_mesh_peer(&mut self, peer: PublicKey, sink: SinkId)
        ensures
            final(self)@ == (ServiceState {
                mesh: put(old(self)@.mesh, peer@, sink),
                ..old(self)@
            }),
    {
        let _ = self.mesh.insert(peer, sink);
    }

    /// Forget everybody who was reached through `sink`: a command for it found its writer
    /// gone.
    pub fn remove_sink(&mut self, sink: SinkId)
        ensures
            final(self)@ == (ServiceState {
                clients: without_sink(old(self)@.clients, sink),
                mesh: without_sink(old(self)@.mesh, sink),
                ..old(self)@
            }),
    {
        self.peers_sinks.remove_sink(sink);
        self.mesh.remove_sink(sink);
    }

    /// The notice, for the sink `sink`, of every client that is no mesh peer.
    pub fn notify_about_all_clients(&self, sink: SinkId) -> (deliveries: Vec<Delivery>)
        ensures
            delivery_views(deliveries@) == presence(absent_keys(self@.clients, self@.mesh), sink),
    {
        let keys = self.peers_sinks.keys();
        let ghost clients = self@.clients;
        let ghost mesh = self@.mesh;
        let mut deliveries: Vec<Delivery> = Vec::new();
        let mut at: usize = 0;
        while at < keys.len()
            invariant
                at <= keys@.len(),
                clients == self@.clients,
                mesh == self@.mesh,
                keys@.len() == clients.len(),
                forall|i: int| 0 <= i < keys@.len() ==> (#[trigger] keys@[i])@ == clients[i].0,
                delivery_views(deliveries@) == presence(
                    absent_keys(clients.take(at as int), mesh),
                    sink,
                ),
            decreases keys@.len() - at,
        {
            let ghost before = deliveries@;
            let key = keys[at];
            proof {
                assert(clients.take(at + 1).drop_last() =~= clients.take(at as int));
            }
            let ghost front = absent_keys(clients.take(at as int), mesh);
            if !self.mesh.contains_key(&key) {
                deliveries.push(Delivery { sink, command: WriteLoopCommands::PeerPresent(key) });
                proof {
                    assert(delivery_views(deliveries@).drop_last() =~= delivery_views(before));
                    assert(delivery_views(deliveries@).last() == (
                        sink,
                        CommandView::PeerPresent(key@),
                    ));
                    let views = delivery_views(deliveries@);
                    let wanted = presence(front.push(key@), sink);
                    assert forall|i: int| 0 <= i < views.len() implies views[i] == wanted[i] by {
                        if i < views.len() - 1 {
                            assert(views[i] == views.drop_last()[i]);
                        }
                    }
                }
            }
            at = at + 1;
        }
        assert(clients.take(at as int) =~= clients);
        deliveries
    }

    /// What `command` makes of the service, and what the service answers.
    pub fn handle_command(&mut self, command: ServiceCommand) -> (answer: ServiceStep)
        ensures
            (final(self)@, answer@) == step(old(self)@, command@),
    {
        match command {
            ServiceCommand::Stop => ServiceStep::Stop,
            ServiceCommand::Register { client, sink, meshkey } => {
                match self.add_new_client(client, sink, meshkey) {
                    Ok(admitted) => ServiceStep::Deliver(admitted.deliveries),
                    Err(fault) => ServiceStep::Rejected(fault),
                }
            },
            ServiceCommand::SendPacket { source, target, payload } => {
                let mut deliveries: Vec<Delivery> = Vec::new();
                match self.route(&target) {
                    Some(sink) => {
                        deliveries.push(
                            Delivery {
                                sink,
                                command: WriteLoopCommands::SendPacket { source, target, payload },
                            },
                        );
                        assert(delivery_views(deliveries@) =~= seq![
                            (
                                sink,
                                CommandView::SendPacket {
                                    source: source@,
                                    target: target@,
                                    payload: payload@,
                                },
                            ),
                        ]);
                    },
                    None => {
                        assert(delivery_views(deliveries@) =~= Seq::empty());
                    },
                }
                ServiceStep::Deliver(deliveries)
            },
            ServiceCommand::SubscribeForPeerChanges(mesh_peer_pk, mesh_sink) => {
                let _ = self.mesh.insert(mesh_peer_pk, mesh_sink);
                ServiceStep::Deliver(self.notify_about_all_clients(mesh_sink))
            },
            ServiceCommand::PeerPresent(pk, sink) => {
                if !self.peers_sinks.contains_key(&pk) {
                    let _ = self.peers_sinks.insert(pk, sink);
                }
                let deliveries: Vec<Delivery> = Vec::new();
                assert(delivery_views(deliveries@) =~= Seq::empty());
                ServiceStep::Deliver(deliveries)
            },
        }
    }
}

} // verus!
