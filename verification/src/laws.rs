//! What holds of the relay as a whole: of readers, service and writers together.
use crate::client::{read_verdict, write_verdict, CommandView, ReadVerdict, WriteVerdict};
use crate::codec::bytes::lemma_pow256_values;
use crate::codec::decode::Decode;
use crate::codec::encode::{lemma_concat_wire_of_bytes, Encode};
use crate::codec::laws::RoundTrip;
use crate::codec::SizeWrapper;
use crate::crypto::PublicKey;
use crate::directory::{distinct_keys, lemma_position, lemma_put, lookup, put, SinkId};
use crate::mesh_client::read_verdict as mesh_read_verdict;
use crate::proto::data::{ForwardPacket, Frame, FrameType, PeerPresent, SendPacket};
use crate::proto::laws::lemma_frame_round_trip;
use crate::proto::{frame_of, lemma_frame_wire, MAX_BODY_SIZE};
use crate::service::{
    absent_keys, presence, step, ServiceCommandView, ServiceState, ServiceVerdict,
};
use vstd::prelude::*;

verus! {

/// A send packet frame reads back as the target and the payload that it was made of.
pub proof fn lemma_send_packet_frame(target: PublicKey, payload: Vec<u8>)
    requires
        payload@.len() + 32 <= MAX_BODY_SIZE,
    ensures
        Frame::<SendPacket>::parse(frame_of(FrameType::SendPacket, target@ + payload@)) matches Some(
            ((_, body), _),
        ) && body == (target@, payload@),
{
    let body = SendPacket { target, payload };
    let frame = Frame { frame_type: FrameType::SendPacket, inner: SizeWrapper::<u32, _>::wrap(body) };
    SizeWrapper::<u32, SendPacket>::lemma_wrap(body);
    lemma_pow256_values();
    target.lemma_len();
    lemma_concat_wire_of_bytes(payload@);
    lemma_frame_wire(frame);
    lemma_frame_round_trip(frame);
}

/// A forward packet frame reads back as the keys and the payload that it was made of.
pub proof fn lemma_forward_packet_frame(source: PublicKey, target: PublicKey, payload: Vec<u8>)
    requires
        payload@.len() + 64 <= MAX_BODY_SIZE,
    ensures
        Frame::<ForwardPacket>::parse(
            frame_of(FrameType::ForwardPacket, source@ + target@ + payload@),
        ) matches Some(((_, body), _)) && body == (source@, target@, payload@),
{
    let body = ForwardPacket { source, target, payload };
    let frame = Frame {
        frame_type: FrameType::ForwardPacket,
        inner: SizeWrapper::<u32, _>::wrap(body),
    };
    SizeWrapper::<u32, ForwardPacket>::lemma_wrap(body);
    lemma_pow256_values();
    source.lemma_len();
    target.lemma_len();
    lemma_concat_wire_of_bytes(payload@);
    lemma_frame_wire(frame);
    lemma_frame_round_trip(frame);
}

/// A peer present frame reads back as the key that it was made of.
pub proof fn lemma_peer_present_frame(key: PublicKey)
    ensures
        Frame::<PeerPresent>::parse(frame_of(FrameType::PeerPresent, key@)) matches Some(
            ((_, body), _),
        ) && body == key@,
{
    let body = PeerPresent { public_key: key };
    let frame = Frame { frame_type: FrameType::PeerPresent, inner: SizeWrapper::<u32, _>::wrap(body) };
    SizeWrapper::<u32, PeerPresent>::lemma_wrap(body);
    lemma_pow256_values();
    key.lemma_len();
    lemma_frame_wire(frame);
    lemma_frame_round_trip(frame);
}

/// Local delivery: where A and B are both clients of one relay, a packet that A sends to B
/// reaches the service as one command, the service hands it to the sink of B and to no
/// other, and the writer of B puts it on the wire as one packet received from A.
pub proof fn lemma_local_delivery(
    state: ServiceState,
    a: PublicKey,
    b: PublicKey,
    payload: Vec<u8>,
    sink_of_a: SinkId,
    a_can_mesh: bool,
    b_can_mesh: bool,
)
    requires
        lookup(state.clients, a@) is Some,
        lookup(state.clients, b@) is Some,
        payload@.len() + 32 <= MAX_BODY_SIZE,
    ensures
        read_verdict(
            FrameType::SendPacket,
            frame_of(FrameType::SendPacket, b@ + payload@),
            a@,
            a_can_mesh,
            sink_of_a,
        ) == ReadVerdict::Forward(
            ServiceCommandView::SendPacket { source: a@, target: b@, payload: payload@ },
        ),
        step(
            state,
            ServiceCommandView::SendPacket { source: a@, target: b@, payload: payload@ },
        ) == (
            state,
            ServiceVerdict::Deliver(
                seq![
                    (
                        lookup(state.clients, b@)->0,
                        CommandView::SendPacket { source: a@, target: b@, payload: payload@ },
                    ),
                ],
            ),
        ),
        write_verdict(
            CommandView::SendPacket { source: a@, target: b@, payload: payload@ },
            b@,
            b_can_mesh,
        ) == WriteVerdict::Emit(frame_of(FrameType::RecvPacket, a@ + payload@)),
{
    lemma_send_packet_frame(b, payload);
}

/// Unknown destination: a packet for a key that is in neither directory is handed to
/// nobody, and the service stays as it was.
pub proof fn lemma_unknown_destination(
    state: ServiceState,
    source: Seq<u8>,
    target: Seq<u8>,
    payload: Seq<u8>,
)
    requires
        lookup(state.clients, target) is None,
        lookup(state.mesh, target) is None,
    ensures
        step(state, ServiceCommandView::SendPacket { source, target, payload }) == (
            state,
            ServiceVerdict::Deliver(Seq::empty()),
        ),
{
}

/// Mesh forwarding: A is a client of the first relay, B of the second, and the second relay
/// is connected to the first as a mesh peer with the sink `link`. Once the first relay has
/// heard through that connection that B is present, a packet from A for B is handed to
/// `link`, goes out there to be forwarded with both keys in front, is read by the second
/// relay as a packet from A for B, is handed to the sink of B, and goes out to B as one
/// packet received from A.
pub proof fn lemma_mesh_forwarding(
    first: ServiceState,
    second: ServiceState,
    a: PublicKey,
    b: PublicKey,
    peer: PublicKey,
    payload: Vec<u8>,
    link: SinkId,
    back_link: SinkId,
    b_can_mesh: bool,
)
    requires
        distinct_keys(first.clients),
        lookup(first.clients, b@) is None,
        lookup(second.clients, b@) is Some,
        peer@ != b@,
        payload@.len() + 64 <= MAX_BODY_SIZE,
    ensures
        ({
            let command = ServiceCommandView::SendPacket {
                source: a@,
                target: b@,
                payload: payload@,
            };
            let delivery = CommandView::SendPacket { source: a@, target: b@, payload: payload@ };
            let forwarded = frame_of(FrameType::ForwardPacket, a@ + b@ + payload@);
            let informed = step(first, ServiceCommandView::PeerPresent(b@, link)).0;
            &&& step(informed, command) == (
                informed,
                ServiceVerdict::Deliver(seq![(link, delivery)]),
            )
            &&& write_verdict(delivery, peer@, true) == WriteVerdict::Emit(forwarded)
            &&& mesh_read_verdict(FrameType::ForwardPacket, forwarded, back_link)
                == ReadVerdict::Forward(command)
            &&& step(second, command) == (
                second,
                ServiceVerdict::Deliver(seq![(lookup(second.clients, b@)->0, delivery)]),
            )
            &&& write_verdict(delivery, b@, b_can_mesh) == WriteVerdict::Emit(
                frame_of(FrameType::RecvPacket, a@ + payload@),
            )
        }),
{
    lemma_put(first.clients, b@, link);
    lemma_forward_packet_frame(a, b, payload);
}

/// The keys that are told to a new subscriber are the keys of the clients that are no mesh
/// peers: each of them, and each once.
pub proof fn lemma_absent_keys(clients: Seq<(Seq<u8>, SinkId)>, mesh: Seq<(Seq<u8>, SinkId)>)
    requires
        distinct_keys(clients),
    ensures
        absent_keys(clients, mesh).no_duplicates(),
        forall|key: Seq<u8>|
            absent_keys(clients, mesh).contains(key) <==> lookup(clients, key) is Some && lookup(
                mesh,
                key,
            ) is None,
    decreases clients.len(),
{
    let told = absent_keys(clients, mesh);
    if clients.len() > 0 {
        let front = clients.drop_last();
        let last = clients.last().0;
        assert(distinct_keys(front)) by {
            assert forall|i: int, j: int|
                0 <= i < front.len() && 0 <= j < front.len() && i != j implies (
            #[trigger] front[i]).0 != (#[trigger] front[j]).0 by {
                assert(front[i] == clients[i]);
            }
        }
        lemma_absent_keys(front, mesh);
        let before = absent_keys(front, mesh);
        lemma_position(front, last);
        assert(lookup(front, last) is None) by {
            if lookup(front, last) is Some {
                let at = crate::directory::position(front, last)->0;
                assert(clients[at].0 == last);
            }
        }
        assert forall|key: Seq<u8>|
            told.contains(key) <==> lookup(clients, key) is Some && lookup(mesh, key) is None by {
            if lookup(mesh, last) is None {
                if told.contains(key) {
                    let at = choose|at: int| 0 <= at < told.len() && told[at] == key;
                    if at < before.len() {
                        assert(before[at] == key);
                    }
                }
                if key == last {
                    assert(told[told.len() - 1] == key);
                } else if before.contains(key) {
                    let at = choose|at: int| 0 <= at < before.len() && before[at] == key;
                    assert(told[at] == key);
                }
            }
        }
        if lookup(mesh, last) is None {
            assert(told.no_duplicates()) by {
                assert forall|i: int, j: int|
                    0 <= i < told.len() && 0 <= j < told.len() && i != j implies told[i]
                    != told[j] by {
                    if i < before.len() && j < before.len() {
                        assert(before[i] != before[j]);
                    } else if i < before.len() {
                        assert(before.contains(before[i]));
                    } else {
                        assert(before.contains(before[j]));
                    }
                }
            }
        }
    }
}

/// Presence flood: a mesh peer that subscribes is entered as a mesh peer, and is handed one
/// notice for each client of this relay that is no mesh peer: for each of them, for none
/// twice, and nothing else.
pub proof fn lemma_presence_flood(state: ServiceState, peer: Seq<u8>, sink: SinkId)
    requires
        distinct_keys(state.clients),
    ensures
        ({
            let (after, verdict) = step(
                state,
                ServiceCommandView::SubscribeForPeerChanges(peer, sink),
            );
            let told = absent_keys(state.clients, after.mesh);
            &&& after.clients == state.clients
            &&& after.mesh == put(state.mesh, peer, sink)
            &&& verdict == ServiceVerdict::Deliver(presence(told, sink))
            &&& presence(told, sink).len() == told.len()
            &&& forall|i: int|
                0 <= i < told.len() ==> #[trigger] presence(told, sink)[i] == (
                    sink,
                    CommandView::PeerPresent(told[i]),
                )
            &&& told.no_duplicates()
            &&& forall|key: Seq<u8>|
                told.contains(key) <==> lookup(state.clients, key) is Some && lookup(
                    after.mesh,
                    key,
                ) is None
        }),
{
    lemma_absent_keys(state.clients, put(state.mesh, peer, sink));
}

} // verus!
