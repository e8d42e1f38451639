use iroh_socks5_proxy::codec::TunnelMessage;
use iroh_socks5_proxy::relay::{RelayAction, RelayState, RELAY_BUF_SIZE};

// Same ClientHello shape as in the SNI tests, carrying "example.com".
fn client_hello() -> Vec<u8> {
    let mut data = vec![0u8; 100];
    data[0] = 0x16;
    data[1] = 0x03;
    data[5] = 0x01;
    data[43] = 0;
    data[44] = 0;
    data[45] = 2;
    data[48] = 1;
    data[49] = 0;
    data[50] = 0;
    data[51] = 19;
    data[52] = 0;
    data[53] = 0;
    data[54] = 0;
    data[55] = 15;
    data[56] = 0;
    data[57] = 13;
    data[58] = 0;
    data[59] = 0;
    data[60] = 11;
    let hostname = b"example.com";
    data[61..61 + hostname.len()].copy_from_slice(hostname);
    data
}

#[test]
fn test_relay_socket_data_counts_and_frames() {
    let mut rs = RelayState::new();
    let buf = [7u8, 8, 9];
    let msg = rs.on_socket_data(&buf);
    assert_eq!(msg, TunnelMessage::Data { data: vec![7, 8, 9] });
    assert_eq!(rs.bytes_sent, 3);
    assert_eq!(rs.bytes_received, 0);
    assert!(!rs.first_packet_socket);
    assert!(rs.first_packet_tunnel);
    // A second read accumulates.
    rs.on_socket_data(&[1u8; 10]);
    assert_eq!(rs.bytes_sent, 13);
}

#[test]
fn test_relay_first_socket_packet_sets_sni_tag() {
    let mut rs = RelayState::new();
    rs.on_socket_data(&client_hello());
    assert_eq!(rs.tag, Some("example.com".to_string()));
    // A later packet does not overwrite the tag from the same direction.
    rs.on_socket_data(b"GET / HTTP/1.1\r\nHost: other.example\r\n\r\n");
    assert_eq!(rs.tag, Some("example.com".to_string()));
}

#[test]
fn test_relay_http_tag_is_method_and_path() {
    let mut rs = RelayState::new();
    rs.on_socket_data(b"GET /api/users HTTP/1.1\r\nHost: api.example.com\r\n\r\n");
    assert_eq!(rs.tag, Some("GET /api/users".to_string()));
}

#[test]
fn test_relay_unrecognized_first_packet_leaves_no_tag() {
    let mut rs = RelayState::new();
    rs.on_socket_data(&[0u8; 64]);
    assert_eq!(rs.tag, None);
}

#[test]
fn test_relay_tunnel_data_writes_and_counts() {
    let mut rs = RelayState::new();
    let act = rs.on_tunnel_message(TunnelMessage::Data { data: vec![1, 2, 3, 4] });
    match act {
        RelayAction::WriteSocket(v) => assert_eq!(v, vec![1, 2, 3, 4]),
        other => panic!("expected WriteSocket, got {:?}", other),
    }
    assert_eq!(rs.bytes_received, 4);
    assert_eq!(rs.bytes_sent, 0);
    assert!(!rs.first_packet_tunnel);
}

#[test]
fn test_relay_tunnel_first_packet_can_set_tag() {
    // A server-initiated HTTP request from the tunnel side tags the flow.
    let mut rs = RelayState::new();
    let act = rs.on_tunnel_message(TunnelMessage::Data {
        data: b"GET / HTTP/1.1\r\nHost: example.com\r\n\r\n".to_vec(),
    });
    assert!(matches!(act, RelayAction::WriteSocket(_)));
    assert_eq!(rs.tag, Some("GET /".to_string()));
}

#[test]
fn test_relay_close_stops_and_others_ignored() {
    let mut rs = RelayState::new();
    assert!(matches!(rs.on_tunnel_message(TunnelMessage::Close), RelayAction::Stop));
    assert!(matches!(rs.on_tunnel_message(TunnelMessage::Connected), RelayAction::Ignore));
    assert!(matches!(
        rs.on_tunnel_message(TunnelMessage::Error { message: "x".to_string() }),
        RelayAction::Ignore
    ));
    assert!(matches!(
        rs.on_tunnel_message(TunnelMessage::Connect { host: "h".to_string(), port: 1 }),
        RelayAction::Ignore
    ));
    assert_eq!(rs.bytes_received, 0);
}

#[test]
fn test_relay_buffer_size() {
    assert_eq!(RELAY_BUF_SIZE, 8192);
}
