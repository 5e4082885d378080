use dersp::crypto::{PublicKey, SecretKey};
use dersp::error::RelayError;
use dersp::proto::data::{ClientInfo, ClientInfoPayload, FrameType, MAGIC};
use dersp::proto::http::{
    answer_upgrade, connect_http, finalize_http_phase, is_ignoring_case, take_leftovers,
    validate_headers, write_upgrade_request, Header, HttpHead, HTTP_OK, UPGRADE_MSG_SIZE,
};
use dersp::proto::{
    exchange_keys, exchange_keys_with_nonce, presented_meshkey, read_client_info,
    read_server_info, read_server_key, write_client_info, write_forward_packet,
    write_peer_present, write_recv_packet, write_server_info, write_server_key,
    write_watch_conns, HandshakeAction, ServerHandshake,
};
use dersp::proto::data::ForwardPacket;

const UPGRADE: &[u8] = b"GET /derp HTTP/1.1\r\nConnection: Upgrade\r\nUpgrade: WebSocket\r\nUser-Agent: telio/1.0 linux\r\n\r\n";

fn header(name: &str, value: &str) -> Header {
    Header::new(name, value.as_bytes())
}

#[test]
fn the_answer_to_a_good_upgrade_is_two_hundred() {
    assert_eq!(HTTP_OK.to_vec(), b"HTTP/1.1 200 OK\r\n\r\n".to_vec());
    assert_eq!(finalize_http_phase(UPGRADE), Ok(HTTP_OK.to_vec()));
    assert_eq!(
        finalize_http_phase(
            b"GET /derp HTTP/1.1\r\nUpgrade: DERP\r\nConnection: upgrade\r\n\r\n"
        ),
        Ok(HTTP_OK.to_vec())
    );
}

#[test]
fn an_empty_first_read_is_refused() {
    assert_eq!(finalize_http_phase(&[]), Err(RelayError::EmptyUpgrade));
}

#[test]
fn a_first_read_that_fills_the_buffer_is_refused() {
    assert_eq!(UPGRADE_MSG_SIZE, 4096);
    assert_eq!(
        finalize_http_phase(&[b'a'; 4096]),
        Err(RelayError::UpgradeTooBig)
    );
    let mut long = UPGRADE.to_vec();
    long.resize(4096, b' ');
    assert_eq!(finalize_http_phase(&long), Err(RelayError::UpgradeTooBig));
    let mut longest_good = b"GET /derp HTTP/1.1\r\nConnection: Upgrade\r\nUpgrade: derp\r\nX: "
        .to_vec();
    longest_good.resize(4091, b'x');
    longest_good.extend_from_slice(b"\r\n\r\n");
    assert_eq!(longest_good.len(), 4095);
    assert_eq!(finalize_http_phase(&longest_good), Ok(HTTP_OK.to_vec()));
}

#[test]
fn what_is_no_request_is_refused() {
    assert_eq!(
        finalize_http_phase(b"\x01\x00\x00\x00\x28 not http at all\r\n\r\n"),
        Err(RelayError::MalformedHttp)
    );
    assert_eq!(
        finalize_http_phase(b"GET /derp HTTP/1.1\r\nConnection: Upgrade\r\nUpgrade: derp\r\n"),
        Err(RelayError::PartialHttp)
    );
    assert_eq!(
        finalize_http_phase(b"GET /derp HTT"),
        Err(RelayError::PartialHttp)
    );
}

#[test]
fn a_request_has_to_ask_for_the_upgrade() {
    assert_eq!(
        finalize_http_phase(b"GET /derp HTTP/1.1\r\nConnection: Upgrade\r\nUpgrade: h2c\r\n\r\n"),
        Err(RelayError::BadUpgradeHeader)
    );
    assert_eq!(
        finalize_http_phase(
            b"GET /derp HTTP/1.1\r\nConnection: keep-alive\r\nUpgrade: derp\r\n\r\n"
        ),
        Err(RelayError::BadConnectionHeader)
    );
    assert_eq!(
        finalize_http_phase(b"GET /derp HTTP/1.1\r\nConnection: Upgrade\r\n\r\n"),
        Err(RelayError::BadUpgradeHeader)
    );
    assert_eq!(
        finalize_http_phase(b"GET /derp HTTP/1.1\r\nUpgrade: websocket\r\n\r\n"),
        Err(RelayError::BadConnectionHeader)
    );
    assert_eq!(
        finalize_http_phase(b"GET /derp HTTP/1.1\r\nHost: relay\r\n\r\n"),
        Err(RelayError::BadUpgradeHeader)
    );
}

#[test]
fn header_values_are_compared_without_regard_to_case() {
    assert!(is_ignoring_case(b"WebSocket", b"websocket"));
    assert!(is_ignoring_case(b"WEBSOCKET", b"websocket"));
    assert!(is_ignoring_case(b"derp", b"derp"));
    assert!(!is_ignoring_case(b"derp ", b"derp"));
    assert!(!is_ignoring_case(b"der", b"derp"));
    assert!(!is_ignoring_case(b"d\xC5rp", b"derp"));
    assert!(!is_ignoring_case(b"[erp", b"{erp"));
    assert!(is_ignoring_case(b"", b""));

    assert_eq!(
        validate_headers(&[header("Upgrade", "DeRp"), header("Connection", "UPGRADE")]),
        Ok(())
    );
    assert_eq!(
        validate_headers(&[
            header("Connection", "close"),
            header("Upgrade", "nothing"),
        ]),
        Err(RelayError::BadConnectionHeader)
    );
    assert_eq!(
        validate_headers(&[
            header("Upgrade", "derp"),
            header("Connection", "upgrade"),
            header("Upgrade", "other"),
        ]),
        Err(RelayError::BadUpgradeHeader)
    );
    assert_eq!(validate_headers(&[]), Err(RelayError::BadUpgradeHeader));
    assert_eq!(
        validate_headers(&[header("upgrade", "derp"), header("Connection", "upgrade")]),
        Err(RelayError::BadUpgradeHeader)
    );
}

#[test]
fn the_answer_to_an_upgrade_goes_by_length_first() {
    let good = || {
        Some(HttpHead::Complete {
            body_start: 10,
            headers: vec![header("Upgrade", "derp"), header("Connection", "upgrade")],
        })
    };
    assert_eq!(answer_upgrade(100, good()), Ok(HTTP_OK.to_vec()));
    assert_eq!(answer_upgrade(4095, good()), Ok(HTTP_OK.to_vec()));
    assert_eq!(answer_upgrade(0, good()), Err(RelayError::EmptyUpgrade));
    assert_eq!(answer_upgrade(4096, good()), Err(RelayError::UpgradeTooBig));
    assert_eq!(answer_upgrade(100, None), Err(RelayError::MalformedHttp));
    assert_eq!(
        answer_upgrade(100, Some(HttpHead::Partial)),
        Err(RelayError::PartialHttp)
    );
}

#[test]
fn the_upgrade_request_of_a_client_is_a_request_that_a_server_accepts() {
    let request = write_upgrade_request("1.2.3", "linux");
    assert_eq!(
        request,
        b"GET /derp HTTP/1.1\r\nConnection: Upgrade\r\nUpgrade: WebSocket\r\nUser-Agent: telio/1.2.3 linux\r\n\r\n"
            .to_vec()
    );
    assert_eq!(finalize_http_phase(&request), Ok(HTTP_OK.to_vec()));
}

#[test]
fn what_follows_the_response_belongs_to_the_frame_stream() {
    let mut data = HTTP_OK.to_vec();
    assert_eq!(connect_http(&data), Ok(vec![]));
    data.extend_from_slice(&[1, 0, 0, 0, 40, 0x44]);
    assert_eq!(connect_http(&data), Ok(vec![1, 0, 0, 0, 40, 0x44]));
    assert_eq!(
        connect_http(b"HTTP/1.1 101 Switching Protocols\r\nUpgrade: derp\r\n\r\nrest"),
        Ok(b"rest".to_vec())
    );
    assert_eq!(
        connect_http(b"HTTP/1.1 200 OK\r\n"),
        Err(RelayError::PartialHttp)
    );
    assert_eq!(connect_http(b""), Err(RelayError::PartialHttp));
    assert_eq!(
        connect_http(b"\x01\x00\x00\x00\x28DERP"),
        Err(RelayError::MalformedHttp)
    );

    assert_eq!(
        take_leftovers(
            b"abcdef",
            Some(HttpHead::Complete {
                body_start: 4,
                headers: vec![]
            })
        ),
        Ok(b"ef".to_vec())
    );
    assert_eq!(
        take_leftovers(
            b"abcdef",
            Some(HttpHead::Complete {
                body_start: 7,
                headers: vec![]
            })
        ),
        Err(RelayError::MalformedHttp)
    );
    assert_eq!(take_leftovers(b"abcdef", None), Err(RelayError::MalformedHttp));
}

#[test]
fn the_server_key_frame_carries_magic_and_key() {
    let secret = SecretKey::new([9; 32]);
    let wire = write_server_key(&secret);
    assert_eq!(wire.len(), 45);
    assert_eq!(&wire[..5], &[0x01, 0, 0, 0, 0x28]);
    assert_eq!(&wire[5..13], &MAGIC);
    assert_eq!(&wire[13..], secret.public().as_bytes());
    assert_eq!(read_server_key(&wire), Ok(secret.public()));

    let mut padded = wire.clone();
    padded.resize(1024, 0);
    assert_eq!(read_server_key(&padded), Ok(secret.public()));
}

#[test]
fn a_server_key_needs_its_type_its_length_and_its_magic() {
    let wire = write_server_key(&SecretKey::new([9; 32]));
    assert_eq!(
        read_server_key(&[]),
        Err(RelayError::UnexpectedFrame(FrameType::Unkonow(0)))
    );
    let mut other = wire.clone();
    other[0] = 0x03;
    assert_eq!(
        read_server_key(&other),
        Err(RelayError::UnexpectedFrame(FrameType::ServerInfo))
    );
    assert_eq!(read_server_key(&wire[..44]), Err(RelayError::Decode));
    let mut long = wire.clone();
    long[4] = 0x29;
    long.push(0);
    assert_eq!(read_server_key(&long), Err(RelayError::Decode));
    let mut forged = wire.clone();
    forged[5] = 0x45;
    assert_eq!(read_server_key(&forged), Err(RelayError::InvalidMagic));
}

#[test]
fn the_frames_behind_the_handshake_are_those_of_the_protocol() {
    assert_eq!(write_server_info(), vec![0x03, 0, 0, 0, 0]);
    assert_eq!(write_watch_conns(), vec![0x10, 0, 0, 0, 0]);
    assert_eq!(read_server_info(&[0x03, 0, 0, 0, 0]), Ok(()));
    assert_eq!(read_server_info(&[0x03]), Ok(()));
    assert_eq!(
        read_server_info(&[0x05, 0, 0, 0, 0]),
        Err(RelayError::UnexpectedFrame(FrameType::RecvPacket))
    );
    assert_eq!(
        read_server_info(&[]),
        Err(RelayError::UnexpectedFrame(FrameType::Unkonow(0)))
    );

    let x = PublicKey::new([0x58; 32]);
    let mut expected = vec![0x09, 0, 0, 0, 0x20];
    expected.extend_from_slice(&[0x58; 32]);
    assert_eq!(write_peer_present(&x), expected);

    let a = PublicKey::new([1; 32]);
    let b = PublicKey::new([2; 32]);
    let mut expected = vec![0x05, 0, 0, 0, 0x21];
    expected.extend_from_slice(&[1; 32]);
    expected.push(b'x');
    assert_eq!(write_recv_packet(a, vec![b'x']), Ok(expected));

    let mut expected = vec![0x0A, 0, 0, 0, 0x42];
    expected.extend_from_slice(&[1; 32]);
    expected.extend_from_slice(&[2; 32]);
    expected.extend_from_slice(b"hi");
    assert_eq!(
        write_forward_packet(ForwardPacket::new(a, b, b"hi".to_vec())),
        Ok(expected)
    );
}

#[test]
fn an_empty_mesh_key_is_no_mesh_key() {
    assert_eq!(presented_meshkey(String::new()), None);
    assert_eq!(presented_meshkey("k".to_string()), Some("k".to_string()));
    assert_eq!(presented_meshkey(" ".to_string()), Some(" ".to_string()));
}

#[test]
fn client_and_server_complete_the_handshake() {
    let server_secret = SecretKey::new([11; 32]);
    let client_secret = SecretKey::new([22; 32]);

    let mut server = ServerHandshake::new(server_secret);
    assert!(!server.is_done());
    let output = match server.on_read(UPGRADE) {
        Ok(HandshakeAction::Send(output)) => output,
        _ => panic!("the upgrade is answered"),
    };
    let mut expected = HTTP_OK.to_vec();
    expected.extend_from_slice(&write_server_key(&server_secret));
    assert_eq!(output, expected);

    let leftovers = connect_http(&output).unwrap();
    let (server_key, answer) =
        exchange_keys_with_nonce(&leftovers, client_secret, Some("mesh"), [3; 24]).unwrap();
    assert_eq!(server_key, server_secret.public());
    assert_eq!(answer[0], 0x02);

    let plain_text = match server.on_read(&answer) {
        Ok(HandshakeAction::ReadPayload(plain_text)) => plain_text,
        _ => panic!("the client info is opened"),
    };
    assert_eq!(
        plain_text,
        b"{\"version\": 2, \"meshKey\": \"mesh\"}".to_vec()
    );

    match server.on_payload(Some(ClientInfoPayload {
        version: 2,
        meshkey: "mesh".to_string(),
    })) {
        Ok(HandshakeAction::Finish {
            output,
            client,
            meshkey,
        }) => {
            assert_eq!(output, vec![0x03, 0, 0, 0, 0]);
            assert_eq!(client, client_secret.public());
            assert_eq!(meshkey, Some("mesh".to_string()));
            assert_eq!(read_server_info(&output), Ok(()));
        }
        _ => panic!("the handshake finishes"),
    }
    assert!(server.is_done());
    assert_eq!(server.on_read(UPGRADE).err(), Some(RelayError::OutOfTurn));
}

#[test]
fn a_client_without_mesh_key_is_known_by_its_key_alone() {
    let server_secret = SecretKey::new([11; 32]);
    let client_secret = SecretKey::new([22; 32]);
    let mut server = ServerHandshake::new(server_secret);
    server.on_read(UPGRADE).ok().unwrap();
    let (_, answer) = exchange_keys(&write_server_key(&server_secret), client_secret, None).unwrap();
    match server.on_read(&answer) {
        Ok(HandshakeAction::ReadPayload(plain_text)) => {
            assert_eq!(plain_text, b"{\"version\": 2, \"meshKey\": \"\"}".to_vec())
        }
        _ => panic!("the client info is opened"),
    }
    match server.on_payload(Some(ClientInfoPayload {
        version: 2,
        meshkey: String::new(),
    })) {
        Ok(HandshakeAction::Finish {
            client, meshkey, ..
        }) => {
            assert_eq!(client, client_secret.public());
            assert_eq!(meshkey, None);
        }
        _ => panic!("the handshake finishes"),
    }
}

#[test]
fn a_bad_first_read_ends_the_handshake_without_output() {
    for first_read in [&[][..], &[b'G'; 4096][..], &b"nonsense\r\n\r\n"[..]] {
        let mut server = ServerHandshake::new(SecretKey::new([11; 32]));
        assert!(server.on_read(first_read).is_err());
        assert!(server.is_done());
        assert_eq!(server.on_read(UPGRADE).err(), Some(RelayError::OutOfTurn));
    }
    let mut server = ServerHandshake::new(SecretKey::new([11; 32]));
    assert_eq!(
        server.on_read(&[b'G'; 4096]).err(),
        Some(RelayError::UpgradeTooBig)
    );
    let mut server = ServerHandshake::new(SecretKey::new([11; 32]));
    assert_eq!(server.on_read(&[]).err(), Some(RelayError::EmptyUpgrade));
}

#[test]
fn a_payload_of_another_version_or_none_is_refused() {
    let server_secret = SecretKey::new([11; 32]);
    let client_secret = SecretKey::new([22; 32]);
    let answer = write_client_info(
        ClientInfo::with_nonce(client_secret, server_secret.public(), None, [5; 24]).unwrap(),
    )
    .unwrap();

    let mut server = ServerHandshake::new(server_secret);
    server.on_read(UPGRADE).ok().unwrap();
    server.on_read(&answer).ok().unwrap();
    assert_eq!(
        server
            .on_payload(Some(ClientInfoPayload {
                version: 1,
                meshkey: String::new()
            }))
            .err(),
        Some(RelayError::UnsupportedVersion(1))
    );
    assert!(server.is_done());

    let mut server = ServerHandshake::new(server_secret);
    server.on_read(UPGRADE).ok().unwrap();
    server.on_read(&answer).ok().unwrap();
    assert_eq!(
        server.on_payload(None).err(),
        Some(RelayError::MalformedClientInfo)
    );
    assert!(server.is_done());

    let mut server = ServerHandshake::new(server_secret);
    assert_eq!(
        server
            .on_payload(Some(ClientInfoPayload {
                version: 2,
                meshkey: String::new()
            }))
            .err(),
        Some(RelayError::OutOfTurn)
    );
}

#[test]
fn a_client_info_has_to_be_whole_and_sealed_for_the_server() {
    let server_secret = SecretKey::new([11; 32]);
    let client_secret = SecretKey::new([22; 32]);
    let answer = write_client_info(
        ClientInfo::with_nonce(client_secret, server_secret.public(), None, [5; 24]).unwrap(),
    )
    .unwrap();

    let (info, plain_text) = read_client_info(&answer, &server_secret).unwrap();
    assert_eq!(info.public_key, client_secret.public());
    assert_eq!(info.nonce, [5; 24]);
    assert_eq!(plain_text, b"{\"version\": 2, \"meshKey\": \"\"}".to_vec());

    assert_eq!(
        read_client_info(&answer, &SecretKey::new([12; 32])).err(),
        Some(RelayError::Decrypt)
    );
    assert_eq!(
        read_client_info(&answer[..answer.len() - 1], &server_secret).err(),
        Some(RelayError::Decode)
    );
    assert_eq!(
        read_client_info(&[0x01, 0, 0, 0, 0], &server_secret).err(),
        Some(RelayError::UnexpectedFrame(FrameType::ServerKey))
    );
    let mut tampered = answer.clone();
    let last = tampered.len() - 1;
    tampered[last] ^= 0x80;
    assert_eq!(
        read_client_info(&tampered, &server_secret).err(),
        Some(RelayError::Decrypt)
    );

    let mut server = ServerHandshake::new(server_secret);
    server.on_read(UPGRADE).ok().unwrap();
    assert_eq!(server.on_read(&tampered).err(), Some(RelayError::Decrypt));
    assert!(server.is_done());
}
