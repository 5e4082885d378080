use dersp::config::{byte_is_space, trimmed, Config};
use dersp::crypto::SecretKey;
use dersp::error::RelayError;
use dersp::mesh_client::MeshClient;
use dersp::proto::data::ClientInfoPayload;
use dersp::proto::http::HTTP_OK;
use dersp::proto::{write_server_key, HandshakeAction, ServerHandshake};

#[test]
fn a_mesh_client_shakes_hands_and_subscribes() {
    let server_secret = SecretKey::new([11; 32]);
    let relay_secret = SecretKey::new([33; 32]);
    let mut server = ServerHandshake::new(server_secret);
    let mut client = MeshClient::new(relay_secret, "mesh".to_string());
    assert_eq!(client.peer(), None);

    let request = client.start("0.1.0", "linux").unwrap();
    let answer = match server.on_read(&request) {
        Ok(HandshakeAction::Send(answer)) => answer,
        _ => panic!("the upgrade is answered"),
    };
    let leftovers = client.on_upgrade_response(&answer).unwrap();
    assert_eq!(leftovers, write_server_key(&server_secret));

    let client_info = client.on_server_key(&leftovers, [4; 24]).unwrap();
    assert_eq!(client.peer(), Some(server_secret.public()));
    let plain_text = match server.on_read(&client_info) {
        Ok(HandshakeAction::ReadPayload(plain_text)) => plain_text,
        _ => panic!("the client info is opened"),
    };
    assert_eq!(
        plain_text,
        b"{\"version\": 2, \"meshKey\": \"mesh\"}".to_vec()
    );
    let server_info = match server.on_payload(Some(ClientInfoPayload {
        version: 2,
        meshkey: "mesh".to_string(),
    })) {
        Ok(HandshakeAction::Finish {
            output,
            client,
            meshkey,
        }) => {
            assert_eq!(client, relay_secret.public());
            assert_eq!(meshkey, Some("mesh".to_string()));
            output
        }
        _ => panic!("the handshake finishes"),
    };
    assert_eq!(
        client.on_server_info(&server_info),
        Ok(vec![0x10, 0, 0, 0, 0])
    );
    assert_eq!(client.peer(), Some(server_secret.public()));
}

#[test]
fn a_mesh_client_keeps_to_the_order_of_the_handshake() {
    let mut client = MeshClient::new(SecretKey::new([33; 32]), "mesh".to_string());
    assert_eq!(
        client.on_upgrade_response(&HTTP_OK),
        Err(RelayError::OutOfTurn)
    );
    assert_eq!(client.start("1", "linux"), Err(RelayError::OutOfTurn));

    let mut client = MeshClient::new(SecretKey::new([33; 32]), "mesh".to_string());
    client.start("1", "linux").unwrap();
    assert_eq!(client.start("1", "linux"), Err(RelayError::OutOfTurn));

    let mut client = MeshClient::new(SecretKey::new([33; 32]), "mesh".to_string());
    client.start("1", "linux").unwrap();
    assert_eq!(
        client.on_server_key(&write_server_key(&SecretKey::new([1; 32])), [0; 24]),
        Err(RelayError::OutOfTurn)
    );

    let mut client = MeshClient::new(SecretKey::new([33; 32]), "mesh".to_string());
    client.start("1", "linux").unwrap();
    client.on_upgrade_response(&HTTP_OK).unwrap();
    assert_eq!(
        client.on_server_info(&[0x03, 0, 0, 0, 0]),
        Err(RelayError::OutOfTurn)
    );
}

#[test]
fn a_mesh_client_gives_up_on_what_is_no_handshake() {
    let mut client = MeshClient::new(SecretKey::new([33; 32]), "mesh".to_string());
    client.start("1", "linux").unwrap();
    assert_eq!(
        client.on_upgrade_response(b"HTTP/1.1 200"),
        Err(RelayError::PartialHttp)
    );
    assert_eq!(
        client.on_upgrade_response(&HTTP_OK),
        Err(RelayError::OutOfTurn)
    );

    let mut client = MeshClient::new(SecretKey::new([33; 32]), "mesh".to_string());
    client.start("1", "linux").unwrap();
    client.on_upgrade_response(&HTTP_OK).unwrap();
    let mut forged = write_server_key(&SecretKey::new([1; 32]));
    forged[12] = 0;
    assert_eq!(
        client.on_server_key(&forged, [0; 24]),
        Err(RelayError::InvalidMagic)
    );
    assert_eq!(client.peer(), None);

    let mut client = MeshClient::new(SecretKey::new([33; 32]), "mesh".to_string());
    client.start("1", "linux").unwrap();
    client.on_upgrade_response(&HTTP_OK).unwrap();
    client
        .on_server_key(&write_server_key(&SecretKey::new([1; 32])), [0; 24])
        .unwrap();
    assert!(client.on_server_info(&[0x05, 0, 0, 0, 0]).is_err());
    assert_eq!(client.peer(), None);
}

#[test]
fn mesh_peers_are_dialed_only_with_a_mesh_key() {
    let peers = vec!["one:1".to_string(), "two:2".to_string()];
    let with_key = Config {
        meshkey: Some("k".to_string()),
        mesh_peers: peers.clone(),
        listen_on: "0.0.0.0:8800".to_string(),
    };
    assert_eq!(with_key.peers_to_dial(), &peers[..]);
    let without_key = Config {
        meshkey: None,
        mesh_peers: peers,
        listen_on: "0.0.0.0:8800".to_string(),
    };
    assert!(without_key.peers_to_dial().is_empty());
}

#[test]
fn white_space_at_the_ends_is_trimmed() {
    assert_eq!(trimmed(b"  key\n"), (2, 5));
    assert_eq!(trimmed(b"key"), (0, 3));
    assert_eq!(trimmed(b"\t a b \r\n"), (2, 5));
    assert_eq!(trimmed(b""), (0, 0));
    let (start, end) = trimmed(b" \n\t ");
    assert_eq!(start, end);
    assert!(byte_is_space(b' '));
    assert!(byte_is_space(b'\t'));
    assert!(byte_is_space(b'\n'));
    assert!(byte_is_space(b'\r'));
    assert!(byte_is_space(0x0c));
    assert!(!byte_is_space(b'k'));
    assert!(!byte_is_space(0));
}
