use iroh_socks5_proxy::codec::{decode_msg, encode_frame, parse_frame_len, TunnelMessage};
use iroh_socks5_proxy::text::utf8_to_string;
use iroh_socks5_proxy::socks5::{
    classify_request, ipv4_host_string, ipv6_host_string, is_loopback_address,
    plan_tunnel_request, port_from_be, reply_code_for_tunnel_response, socks_reply, AddrType,
    RequestKind,
    RequestPlan, REPLY_ADDR_TYPE_NOT_SUPPORTED, REPLY_COMMAND_NOT_SUPPORTED,
    REPLY_CONNECTION_REFUSED, REPLY_SUCCESS,
};

#[test]
fn test_is_loopback_address_localhost() {
    assert!(is_loopback_address("localhost", 1080));
    assert!(is_loopback_address("127.0.0.1", 1080));
    assert!(is_loopback_address("127.0.0.5", 1080));
}

#[test]
fn test_is_loopback_address_non_socks_port() {
    assert!(!is_loopback_address("localhost", 8080));
    assert!(!is_loopback_address("127.0.0.1", 443));
}

#[test]
fn test_is_loopback_address_non_loopback() {
    assert!(!is_loopback_address("example.com", 1080));
    assert!(!is_loopback_address("192.168.1.1", 1080));
}

#[test]
fn test_is_loopback_address_ipv6_and_ports() {
    assert!(is_loopback_address("::1", 1081));
    assert!(is_loopback_address("127.1.2.3", 9050));
    assert!(!is_loopback_address("::2", 1080));
    assert!(!is_loopback_address("12.0.0.1", 1080));
}

#[test]
fn test_classify_request() {
    assert_eq!(classify_request(1, 1), RequestKind::Connect(AddrType::Ipv4));
    assert_eq!(classify_request(1, 3), RequestKind::Connect(AddrType::Domain));
    assert_eq!(classify_request(1, 4), RequestKind::Connect(AddrType::Ipv6));
    // CMD != CONNECT yields the command-not-supported reply, code 7.
    assert_eq!(classify_request(2, 1), RequestKind::UnsupportedCommand);
    assert_eq!(REPLY_COMMAND_NOT_SUPPORTED, 7);
    // An unknown address type yields code 8.
    assert_eq!(classify_request(1, 5), RequestKind::UnsupportedAddrType);
    assert_eq!(REPLY_ADDR_TYPE_NOT_SUPPORTED, 8);
}

#[test]
fn test_socks_reply_bytes() {
    assert_eq!(socks_reply(0), vec![5, 0, 0, 1, 0, 0, 0, 0, 0, 0]);
    assert_eq!(socks_reply(5), vec![5, 5, 0, 1, 0, 0, 0, 0, 0, 0]);
    assert_eq!(socks_reply(7), vec![5, 7, 0, 1, 0, 0, 0, 0, 0, 0]);
    assert_eq!(socks_reply(8), vec![5, 8, 0, 1, 0, 0, 0, 0, 0, 0]);
}

#[test]
fn test_reply_code_for_tunnel_response() {
    assert_eq!(reply_code_for_tunnel_response(&TunnelMessage::Connected), REPLY_SUCCESS);
    assert_eq!(
        reply_code_for_tunnel_response(&TunnelMessage::Error { message: "x".to_string() }),
        REPLY_CONNECTION_REFUSED
    );
    assert_eq!(reply_code_for_tunnel_response(&TunnelMessage::Close), 1);
    assert_eq!(
        reply_code_for_tunnel_response(&TunnelMessage::Data { data: vec![] }),
        1
    );
}

#[test]
fn test_plan_tunnel_request_loop_prevention() {
    let msg = TunnelMessage::Connect { host: "127.0.0.1".to_string(), port: 1080 };
    match plan_tunnel_request(&msg) {
        RequestPlan::RejectLoop { message } => {
            assert_eq!(message, "Loop detected: cannot tunnel to local SOCKS proxy");
        }
        other => panic!("expected RejectLoop, got {:?}", other),
    }
}

#[test]
fn test_plan_tunnel_request_dial() {
    let msg = TunnelMessage::Connect { host: "example.com".to_string(), port: 443 };
    match plan_tunnel_request(&msg) {
        RequestPlan::Dial { host, port } => {
            assert_eq!(host, "example.com");
            assert_eq!(port, 443);
        }
        other => panic!("expected Dial, got {:?}", other),
    }
    // Loopback host on a non-SOCKS port still dials.
    let msg = TunnelMessage::Connect { host: "localhost".to_string(), port: 8080 };
    assert!(matches!(plan_tunnel_request(&msg), RequestPlan::Dial { .. }));
}

#[test]
fn test_plan_tunnel_request_ignores_other_variants() {
    assert!(matches!(plan_tunnel_request(&TunnelMessage::Connected), RequestPlan::Ignore));
    assert!(matches!(plan_tunnel_request(&TunnelMessage::Close), RequestPlan::Ignore));
}

#[test]
fn test_socks5_domain_happy_path() {
    // Client request: 05 01 00 03 0b "example.com" 01 BB
    let req: &[u8] = &[
        0x05, 0x01, 0x00, 0x03, 0x0b, b'e', b'x', b'a', b'm', b'p', b'l', b'e', b'.', b'c',
        b'o', b'm', 0x01, 0xBB,
    ];
    assert_eq!(req[0], 5);
    assert_eq!(classify_request(req[1], req[3]), RequestKind::Connect(AddrType::Domain));
    let dlen = req[4] as usize;
    let host = utf8_to_string(&req[5..5 + dlen]).unwrap();
    let port = port_from_be(req[5 + dlen], req[6 + dlen]);
    assert_eq!(host, "example.com");
    assert_eq!(port, 443);

    // A framed Connect goes out on a fresh stream and comes back intact.
    let frame = encode_frame(&TunnelMessage::Connect { host: host.clone(), port }).unwrap();
    let n = parse_frame_len(&frame[0..4]).unwrap();
    let received = decode_msg(&frame[4..4 + n]).unwrap();
    assert_eq!(received, TunnelMessage::Connect { host: "example.com".to_string(), port: 443 });

    // The remote side dials it, and Connected maps to the success reply.
    assert!(matches!(plan_tunnel_request(&received), RequestPlan::Dial { .. }));
    let code = reply_code_for_tunnel_response(&TunnelMessage::Connected);
    assert_eq!(socks_reply(code), vec![0x05, 0x00, 0x00, 0x01, 0, 0, 0, 0, 0, 0]);
}

#[test]
fn test_socks5_loop_prevention_path() {
    // The remote side refuses 127.0.0.1:1080 with the loop error, and the
    // local side surfaces it as reply code 5.
    let connect = TunnelMessage::Connect { host: "127.0.0.1".to_string(), port: 1080 };
    let error = match plan_tunnel_request(&connect) {
        RequestPlan::RejectLoop { message } => TunnelMessage::Error { message },
        other => panic!("expected RejectLoop, got {:?}", other),
    };
    let code = reply_code_for_tunnel_response(&error);
    assert_eq!(socks_reply(code), vec![0x05, 0x05, 0x00, 0x01, 0, 0, 0, 0, 0, 0]);
}

#[test]
fn test_port_from_be() {
    assert_eq!(port_from_be(0x01, 0xBB), 443);
    assert_eq!(port_from_be(0, 0), 0);
    assert_eq!(port_from_be(0xFF, 0xFF), 65535);
    assert_eq!(port_from_be(0x04, 0x38), 1080);
}

#[test]
fn test_ipv4_host_string() {
    assert_eq!(ipv4_host_string(&[192, 168, 1, 1]), "192.168.1.1");
    assert_eq!(ipv4_host_string(&[0, 0, 0, 0]), "0.0.0.0");
    assert_eq!(ipv4_host_string(&[255, 255, 255, 255]), "255.255.255.255");
}

#[test]
fn test_ipv6_host_string() {
    let mut addr = [0u8; 16];
    addr[15] = 1;
    assert_eq!(
        ipv6_host_string(&addr),
        "[0000:0000:0000:0000:0000:0000:0000:0001]"
    );
    let addr = [
        0x20, 0x01, 0x0d, 0xb8, 0x00, 0x00, 0x00, 0x00, 0x00, 0x00, 0xab, 0xcd, 0xef, 0x01,
        0x23, 0x45,
    ];
    assert_eq!(
        ipv6_host_string(&addr),
        "[2001:0db8:0000:0000:0000:abcd:ef01:2345]"
    );
}
