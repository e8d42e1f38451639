use iroh_socks5_proxy::state::{
    backoff_delay_secs, tunnel_alpn, tunnel_wait_decision, ConnectionState, PeerId, TunnelState,
    WaitDecision, TUNNEL_WAIT_MS,
};

fn peer(b: u8) -> PeerId {
    PeerId::new([b; 32])
}

#[test]
fn test_backoff_schedule() {
    // 1, 2, 4, 8, 16, 32, 60, 60, ... seconds between attempts.
    let expected = [1u64, 2, 4, 8, 16, 32, 60, 60, 60];
    for (i, &want) in expected.iter().enumerate() {
        assert_eq!(backoff_delay_secs(i as u32), want);
    }
    assert_eq!(backoff_delay_secs(1000), 60);
    // Cumulative dial times after the first failure at t=0:
    // t = 1, 3, 7, 15, 31, 63, 123, 183, ...
    let mut t = 0u64;
    let mut times = Vec::new();
    for i in 0..8 {
        t += backoff_delay_secs(i);
        times.push(t);
    }
    assert_eq!(times, vec![1, 3, 7, 15, 31, 63, 123, 183]);
}

#[test]
fn test_invariant_through_lifecycle() {
    // peer_connection is Some exactly in the Connected state, at every step.
    let mut st = TunnelState::new(Some(peer(1)), None);
    assert!(st.peer_connection().is_none());
    assert_eq!(st.connection_state(), ConnectionState::Disconnected);

    st.begin_dial(17);
    assert!(st.peer_connection().is_none());
    assert_eq!(st.connection_state(), ConnectionState::Connecting);
    assert_eq!(st.reconnect_attempts(), 1);
    assert_eq!(st.last_connection_attempt(), Some(17));

    st.dial_failed();
    assert!(st.peer_connection().is_none());
    assert_eq!(st.connection_state(), ConnectionState::Failed);
    assert_eq!(st.reconnect_attempts(), 1);

    st.begin_dial(18);
    assert_eq!(st.reconnect_attempts(), 2);
    st.dial_succeeded(7);
    assert_eq!(st.peer_connection(), Some(7));
    assert_eq!(st.connection_state(), ConnectionState::Connected);
    assert_eq!(st.reconnect_attempts(), 0); // reset on success
}

#[test]
fn test_health_detection_cycle() {
    // Connected -> (peer closed) -> Disconnected with a redial target,
    // then a new dial moves to Connecting.
    let mut st = TunnelState::new(None, None);
    st.on_inbound_accepted(42, peer(9));
    assert_eq!(st.connection_state(), ConnectionState::Connected);
    assert!(st.remote_peer_id().is_some());

    let redial = st.health_check(true);
    assert!(redial.is_some());
    assert_eq!(st.connection_state(), ConnectionState::Disconnected);
    assert!(st.peer_connection().is_none());

    st.begin_dial(0);
    assert_eq!(st.connection_state(), ConnectionState::Connecting);
}

#[test]
fn test_health_check_quiet_cases() {
    // Live connection, not closed: nothing to do.
    let mut st = TunnelState::new(None, None);
    st.dial_succeeded(1);
    assert!(st.health_check(false).is_none());
    assert_eq!(st.connection_state(), ConnectionState::Connected);

    // No connection and no known peer: nothing to do.
    let mut st = TunnelState::new(None, None);
    assert!(st.health_check(false).is_none());

    // No connection but a known peer: ask for a reconnection.
    let mut st = TunnelState::new(Some(peer(3)), None);
    let redial = st.health_check(false);
    assert!(redial.is_some());
    assert!(redial.unwrap().same_as(&peer(3)));
}

#[test]
fn test_handler_exit_only_clears_own_connection() {
    let mut st = TunnelState::new(None, None);
    st.dial_succeeded(1);
    // A later reconnection replaced the connection with id 2.
    st.dial_succeeded(2);
    // The old handler for id 1 exits: the state must stand.
    st.handler_exited(1);
    assert_eq!(st.peer_connection(), Some(2));
    assert_eq!(st.connection_state(), ConnectionState::Connected);
    // The current handler exits: the state clears.
    st.handler_exited(2);
    assert_eq!(st.peer_connection(), None);
    assert_eq!(st.connection_state(), ConnectionState::Disconnected);
}

#[test]
fn test_tunnel_wait_decision() {
    assert_eq!(
        tunnel_wait_decision(Some(5), ConnectionState::Connected, 0),
        WaitDecision::Proceed(5)
    );
    assert_eq!(
        tunnel_wait_decision(None, ConnectionState::Connecting, 0),
        WaitDecision::KeepWaiting
    );
    assert_eq!(
        tunnel_wait_decision(None, ConnectionState::Connecting, TUNNEL_WAIT_MS),
        WaitDecision::GiveUp
    );
    assert_eq!(
        tunnel_wait_decision(None, ConnectionState::Disconnected, 0),
        WaitDecision::GiveUp
    );
    assert_eq!(
        tunnel_wait_decision(None, ConnectionState::Failed, 0),
        WaitDecision::GiveUp
    );
}

#[test]
fn test_tunnel_alpn_bytes() {
    assert_eq!(tunnel_alpn(), b"iroh-tunnel/1".to_vec());
    assert_eq!(tunnel_alpn().len(), 13);
}

#[test]
fn test_peer_id_same_as() {
    assert!(peer(1).same_as(&peer(1)));
    assert!(!peer(1).same_as(&peer(2)));
}
