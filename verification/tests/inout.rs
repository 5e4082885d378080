use dersp::codec::SizeWrapper;
use dersp::codec::Encode;
use dersp::crypto::PublicKey;
use dersp::inout::{InputBuffer, PartMessage, HEADER_SIZE, MAX_TCP_PACKET_SIZE};
use dersp::proto::data::{Frame, FrameType, PeerPresent, SendPacket};

fn send_packet_wire(target: u8, payload: &[u8]) -> Vec<u8> {
    let mut wire = Vec::new();
    Frame {
        frame_type: FrameType::SendPacket,
        inner: SizeWrapper::new(SendPacket {
            target: PublicKey::new([target; 32]),
            payload: payload.to_vec(),
        }),
    }
    .encode(&mut wire)
    .unwrap();
    wire
}

fn take(buffer: &mut InputBuffer) -> Option<(FrameType, Vec<u8>)> {
    match buffer.next_message().unwrap() {
        PartMessage::InsufficientData => None,
        PartMessage::Message(message) => Some((message.ty, message.buffer)),
    }
}

#[test]
fn the_sizes_of_the_stream_are_those_of_the_protocol() {
    assert_eq!(HEADER_SIZE, 5);
    assert_eq!(MAX_TCP_PACKET_SIZE, 65535);
}

#[test]
fn an_empty_buffer_holds_no_message() {
    let mut buffer = InputBuffer::new();
    assert!(take(&mut buffer).is_none());
    let mut buffer = InputBuffer::default();
    assert!(take(&mut buffer).is_none());
}

#[test]
fn a_whole_frame_is_handed_out_with_its_header() {
    let wire = send_packet_wire(2, b"hi");
    let mut buffer = InputBuffer::new();
    buffer.input_data(&wire);
    assert_eq!(take(&mut buffer), Some((FrameType::SendPacket, wire)));
    assert!(take(&mut buffer).is_none());
}

#[test]
fn every_strict_prefix_of_a_frame_is_insufficient() {
    let wire = send_packet_wire(2, b"some payload");
    for cut in 0..wire.len() {
        let mut buffer = InputBuffer::new();
        buffer.input_data(&wire[..cut]);
        assert!(take(&mut buffer).is_none(), "prefix of {cut} bytes");
        buffer.input_data(&wire[cut..]);
        assert_eq!(take(&mut buffer), Some((FrameType::SendPacket, wire.clone())));
    }
}

#[test]
fn frames_come_out_in_the_order_of_the_wire() {
    let first = send_packet_wire(1, b"one");
    let second = send_packet_wire(2, b"");
    let mut third = Vec::new();
    Frame {
        frame_type: FrameType::PeerPresent,
        inner: SizeWrapper::new(PeerPresent {
            public_key: PublicKey::new([3; 32]),
        }),
    }
    .encode(&mut third)
    .unwrap();

    let mut stream = first.clone();
    stream.extend_from_slice(&second);
    stream.extend_from_slice(&third);
    stream.extend_from_slice(&[0x10, 0, 0]);

    let mut buffer = InputBuffer::new();
    for byte in &stream {
        buffer.input_data(&[*byte]);
    }
    assert_eq!(take(&mut buffer), Some((FrameType::SendPacket, first)));
    assert_eq!(take(&mut buffer), Some((FrameType::SendPacket, second)));
    assert_eq!(take(&mut buffer), Some((FrameType::PeerPresent, third)));
    assert!(take(&mut buffer).is_none());
    buffer.input_data(&[0, 0]);
    assert_eq!(
        take(&mut buffer),
        Some((FrameType::WatchConns, vec![0x10, 0, 0, 0, 0]))
    );
}

#[test]
fn a_frame_of_unknown_type_is_handed_out_as_such() {
    let mut buffer = InputBuffer::new();
    buffer.input_data(&[0x7F, 0, 0, 0, 1, 0xAA, 0x01]);
    assert_eq!(
        take(&mut buffer),
        Some((FrameType::Unkonow(0x7F), vec![0x7F, 0, 0, 0, 1, 0xAA]))
    );
    assert!(take(&mut buffer).is_none());
}

#[test]
fn the_length_is_read_in_network_order() {
    let mut buffer = InputBuffer::new();
    let mut wire = vec![0x14, 0, 0, 0x01, 0x02];
    wire.extend_from_slice(&[9; 0x0101]);
    buffer.input_data(&wire);
    assert!(take(&mut buffer).is_none());
    buffer.input_data(&[9]);
    let (ty, bytes) = take(&mut buffer).unwrap();
    assert_eq!(ty, FrameType::ControlMessage);
    assert_eq!(bytes.len(), 5 + 0x0102);
}
