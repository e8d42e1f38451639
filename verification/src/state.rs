//! Session state: the single peer connection, its lifecycle, the remote
//! peer identity, and reconnection bookkeeping with exponential backoff.
//!
//! The live peer connection is carried here by its stable identifier; the
//! connection object itself lives with the transport in the surrounding
//! program.  Every transition preserves the core invariant: a connection is
//! recorded exactly when the state is `Connected`.

use vstd::prelude::*;

verus! {

/// The protocol identifier of the tunnel, the bytes of "iroh-tunnel/1".
pub open spec fn spec_tunnel_alpn() -> Seq<u8> {
    seq![105u8, 114u8, 111u8, 104u8, 45u8, 116u8, 117u8, 110u8, 110u8, 101u8, 108u8, 47u8, 49u8]
}

/// The ALPN bytes under which tunnel sessions are dialed and accepted.
pub fn tunnel_alpn() -> (r: Vec<u8>)
    ensures
        r@ == spec_tunnel_alpn(),
{
    let mut v: Vec<u8> = Vec::new();
    v.push(105);
    v.push(114);
    v.push(111);
    v.push(104);
    v.push(45);
    v.push(116);
    v.push(117);
    v.push(110);
    v.push(110);
    v.push(101);
    v.push(108);
    v.push(47);
    v.push(49);
    proof {
        assert(v@ =~= spec_tunnel_alpn());
    }
    v
}

/// Lifecycle of the peer connection.
#[derive(Debug, Clone, Copy, PartialEq, Eq, Structural)]
pub enum ConnectionState {
    Disconnected,
    Connecting,
    Connected,
    Failed,
}

/// The identity of a remote node: an opaque 32-byte public key.
#[derive(Debug, Clone, Copy)]
pub struct PeerId {
    pub bytes: [u8; 32],
}

impl View for PeerId {
    type V = Seq<u8>;

    open spec fn view(&self) -> Seq<u8> {
        self.bytes@
    }
}

impl PeerId {
    pub fn new(bytes: [u8; 32]) -> (r: PeerId)
        ensures
            r.bytes@ == bytes@,
    {
        PeerId { bytes }
    }

    /// Identity comparison, byte by byte.
    pub fn same_as(&self, other: &PeerId) -> (r: bool)
        ensures
            r == (self@ == other@),
    {
        let mut i: usize = 0;
        while i < 32
            invariant
                i <= 32,
                self@.len() == 32,
                other@.len() == 32,
                forall|j: int| 0 <= j < i ==> self@[j] == other@[j],
            decreases 32 - i,
        {
            if self.bytes[i] != other.bytes[i] {
                return false;
            }
            i = i + 1;
        }
        proof {
            assert(self@ =~= other@);
        }
        true
    }
}

/// The process-wide session record.  The fields are reachable only through
/// the transitions below, each of which preserves `wf`, so every value of
/// this type satisfies the invariant.
pub struct TunnelState {
    /// Stable identifier of the live peer connection, present exactly when
    /// the state is `Connected`.
    peer_connection: Option<u64>,
    connection_state: ConnectionState,
    /// The peer to (re)dial; set on an explicit dial or on the first
    /// accepted inbound connection.
    remote_peer_id: Option<PeerId>,
    /// Reset to zero on every successful connect.
    reconnect_attempts: u32,
    /// Advisory timestamp of the last dial, in milliseconds.
    last_connection_attempt: Option<u64>,
    /// Accepted and stored; unused by the core.
    log_file: Option<String>,
}

impl TunnelState {
    /// The core invariant: a connection is recorded iff the state is
    /// `Connected`.  It holds of every reachable value: `new` establishes
    /// it and every transition preserves it.
    pub closed spec fn wf(self) -> bool {
        self.peer_connection is Some <==> self.connection_state == ConnectionState::Connected
    }

    pub closed spec fn spec_peer_connection(self) -> Option<u64> {
        self.peer_connection
    }

    pub closed spec fn spec_connection_state(self) -> ConnectionState {
        self.connection_state
    }

    pub closed spec fn spec_remote_peer_id(self) -> Option<PeerId> {
        self.remote_peer_id
    }

    pub closed spec fn spec_reconnect_attempts(self) -> u32 {
        self.reconnect_attempts
    }

    pub closed spec fn spec_last_connection_attempt(self) -> Option<u64> {
        self.last_connection_attempt
    }

    pub closed spec fn spec_log_file(self) -> Option<String> {
        self.log_file
    }

    pub fn peer_connection(&self) -> (r: Option<u64>)
        ensures
            r == self.spec_peer_connection(),
    {
        self.peer_connection
    }

    pub fn connection_state(&self) -> (r: ConnectionState)
        ensures
            r == self.spec_connection_state(),
    {
        self.connection_state
    }

    pub fn remote_peer_id(&self) -> (r: Option<PeerId>)
        ensures
            r == self.spec_remote_peer_id(),
    {
        self.remote_peer_id
    }

    pub fn reconnect_attempts(&self) -> (r: u32)
        ensures
            r == self.spec_reconnect_attempts(),
    {
        self.reconnect_attempts
    }

    pub fn last_connection_attempt(&self) -> (r: Option<u64>)
        ensures
            r == self.spec_last_connection_attempt(),
    {
        self.last_connection_attempt
    }

    /// A fresh record: disconnected, no connection, no attempts yet.
    pub fn new(remote_peer_id: Option<PeerId>, log_file: Option<String>) -> (r: TunnelState)
        ensures
            r.wf(),
            r.spec_peer_connection() is None,
            r.spec_connection_state() == ConnectionState::Disconnected,
            r.spec_remote_peer_id() == remote_peer_id,
            r.spec_reconnect_attempts() == 0,
            r.spec_last_connection_attempt() is None,
            r.spec_log_file() == log_file,
    {
        TunnelState {
            peer_connection: None,
            connection_state: ConnectionState::Disconnected,
            remote_peer_id,
            reconnect_attempts: 0,
            last_connection_attempt: None,
            log_file,
        }
    }

    /// An inbound peer connection completed its handshake: record it, adopt
    /// the peer as the one to redial, and become `Connected`.
    pub fn on_inbound_accepted(&mut self, conn_id: u64, peer: PeerId)
        ensures
            final(self).spec_peer_connection() == Some(conn_id),
            final(self).spec_connection_state() == ConnectionState::Connected,
            final(self).spec_remote_peer_id() == Some(peer),
            final(self).spec_reconnect_attempts() == old(self).spec_reconnect_attempts(),
            final(self).spec_last_connection_attempt() == old(self).spec_last_connection_attempt(),
            final(self).spec_log_file() == old(self).spec_log_file(),
            final(self).wf(),
    {
        self.peer_connection = Some(conn_id);
        self.remote_peer_id = Some(peer);
        self.connection_state = ConnectionState::Connected;
    }

    /// A dial is about to start: become `Connecting` and count the attempt.
    pub fn begin_dial(&mut self, now_ms: u64)
        requires
            old(self).spec_peer_connection() is None,
            old(self).spec_reconnect_attempts() < u32::MAX,
        ensures
            final(self).spec_peer_connection() is None,
            final(self).spec_connection_state() == ConnectionState::Connecting,
            final(self).spec_remote_peer_id() == old(self).spec_remote_peer_id(),
            final(self).spec_reconnect_attempts() == old(self).spec_reconnect_attempts() + 1,
            final(self).spec_last_connection_attempt() == Some(now_ms),
            final(self).spec_log_file() == old(self).spec_log_file(),
            final(self).wf(),
    {
        self.connection_state = ConnectionState::Connecting;
        self.reconnect_attempts = self.reconnect_attempts + 1;
        self.last_connection_attempt = Some(now_ms);
    }

    /// A dial succeeded: record the connection, become `Connected`, and
    /// reset the attempt counter.
    pub fn dial_succeeded(&mut self, conn_id: u64)
        ensures
            final(self).spec_peer_connection() == Some(conn_id),
            final(self).spec_connection_state() == ConnectionState::Connected,
            final(self).spec_remote_peer_id() == old(self).spec_remote_peer_id(),
            final(self).spec_reconnect_attempts() == 0,
            final(self).spec_last_connection_attempt() == old(self).spec_last_connection_attempt(),
            final(self).spec_log_file() == old(self).spec_log_file(),
            final(self).wf(),
    {
        self.peer_connection = Some(conn_id);
        self.connection_state = ConnectionState::Connected;
        self.reconnect_attempts = 0;
    }

    /// A dial failed: become `Failed`; the attempt count stands.
    pub fn dial_failed(&mut self)
        requires
            old(self).spec_peer_connection() is None,
        ensures
            final(self).spec_peer_connection() is None,
            final(self).spec_connection_state() == ConnectionState::Failed,
            final(self).spec_remote_peer_id() == old(self).spec_remote_peer_id(),
            final(self).spec_reconnect_attempts() == old(self).spec_reconnect_attempts(),
            final(self).spec_last_connection_attempt() == old(self).spec_last_connection_attempt(),
            final(self).spec_log_file() == old(self).spec_log_file(),
            final(self).wf(),
    {
        self.connection_state = ConnectionState::Failed;
    }

    /// A connection handler exited: clear the recorded connection only if it
    /// is still the one the handler was running, so that a newer successful
    /// reconnection is not clobbered by a late exit of an older handler.
    pub fn handler_exited(&mut self, conn_id: u64)
        requires
            old(self).wf(),
        ensures
            old(self).spec_peer_connection() == Some(conn_id) ==> {
                &&& final(self).spec_peer_connection() is None
                &&& final(self).spec_connection_state() == ConnectionState::Disconnected
                &&& final(self).spec_remote_peer_id() == old(self).spec_remote_peer_id()
                &&& final(self).spec_reconnect_attempts() == old(self).spec_reconnect_attempts()
                &&& final(self).spec_last_connection_attempt() == old(self).spec_last_connection_attempt()
                &&& final(self).spec_log_file() == old(self).spec_log_file()
            },
            old(self).spec_peer_connection() != Some(conn_id) ==> *final(self) == *old(self),
            final(self).wf(),
    {
        match self.peer_connection {
            Some(current) => {
                if current == conn_id {
                    self.peer_connection = None;
                    self.connection_state = ConnectionState::Disconnected;
                }
            },
            None => {},
        }
    }

    /// One health-monitor tick.  `peer_closed` reports whether the recorded
    /// connection, if any, has a close reason set.  A closed connection is
    /// cleared and the state becomes `Disconnected`; the result is the peer
    /// to redial, when a reconnection should be attempted.
    pub fn health_check(&mut self, peer_closed: bool) -> (redial: Option<PeerId>)
        requires
            old(self).wf(),
        ensures
            old(self).spec_peer_connection() is Some && peer_closed ==> {
                &&& final(self).spec_peer_connection() is None
                &&& final(self).spec_connection_state() == ConnectionState::Disconnected
                &&& redial == old(self).spec_remote_peer_id()
            },
            old(self).spec_peer_connection() is None && old(self).spec_remote_peer_id() is Some ==> {
                &&& *final(self) == *old(self)
                &&& redial == old(self).spec_remote_peer_id()
            },
            !(old(self).spec_peer_connection() is Some && peer_closed) && !(old(self).spec_peer_connection()
                is None && old(self).spec_remote_peer_id() is Some) ==> {
                &&& *final(self) == *old(self)
                &&& redial is None
            },
            final(self).spec_remote_peer_id() == old(self).spec_remote_peer_id(),
            final(self).spec_reconnect_attempts() == old(self).spec_reconnect_attempts(),
            final(self).spec_last_connection_attempt() == old(self).spec_last_connection_attempt(),
            final(self).spec_log_file() == old(self).spec_log_file(),
            final(self).wf(),
    {
        match self.peer_connection {
            Some(_) => {
                if peer_closed {
                    self.connection_state = ConnectionState::Disconnected;
                    self.peer_connection = None;
                    self.remote_peer_id
                } else {
                    None
                }
            },
            None => {
                if self.remote_peer_id.is_some() {
                    self.remote_peer_id
                } else {
                    None
                }
            },
        }
    }
}

/// Two to the power `e`.
pub open spec fn spec_pow2(e: nat) -> nat
    decreases e,
{
    if e == 0 {
        1
    } else {
        2 * spec_pow2((e - 1) as nat)
    }
}

/// The reconnection delay before attempt number `attempts + 1`, in seconds:
/// the minimum of 60 and two to the capped attempt count.
pub open spec fn spec_backoff_secs(attempts: u32) -> int {
    let e = if attempts > 6 {
        6
    } else {
        attempts as int
    };
    let d = spec_pow2(e as nat) as int;
    if d > 60 {
        60
    } else {
        d
    }
}

/// Exponential backoff: 1, 2, 4, 8, 16, 32, 60, 60, ... seconds.
pub fn backoff_delay_secs(attempts: u32) -> (r: u64)
    ensures
        r == spec_backoff_secs(attempts),
{
    let e: u32 = if attempts > 6 {
        6
    } else {
        attempts
    };
    let p: u64 = if e == 0 {
        1
    } else if e == 1 {
        2
    } else if e == 2 {
        4
    } else if e == 3 {
        8
    } else if e == 4 {
        16
    } else if e == 5 {
        32
    } else {
        64
    };
    proof {
        reveal_with_fuel(spec_pow2, 8);
    }
    if p > 60 {
        60
    } else {
        p
    }
}

/// Seconds between health-monitor ticks.
pub const HEALTH_CHECK_INTERVAL_SECS: u64 = 5;

/// Milliseconds a SOCKS5 client waits for a reconnection in progress.
pub const TUNNEL_WAIT_MS: u64 = 5000;

/// Milliseconds between polls while waiting for the tunnel.
pub const TUNNEL_POLL_MS: u64 = 100;

/// What a waiting SOCKS5 client should do after a snapshot of the session.
#[derive(Debug, Clone, Copy, PartialEq, Eq, Structural)]
pub enum WaitDecision {
    /// A connection is live: use it.
    Proceed(u64),
    /// A reconnection is in progress and time remains: poll again.
    KeepWaiting,
    /// No connection and none coming: fail the client request.
    GiveUp,
}

/// Decide from a snapshot of the session whether a client request can
/// proceed, should keep waiting for a reconnection, or must give up.
pub fn tunnel_wait_decision(
    peer_connection: Option<u64>,
    connection_state: ConnectionState,
    elapsed_ms: u64,
) -> (r: WaitDecision)
    ensures
        peer_connection matches Some(id) ==> r == WaitDecision::Proceed(id),
        peer_connection is None && connection_state == ConnectionState::Connecting && elapsed_ms
            < TUNNEL_WAIT_MS ==> r == WaitDecision::KeepWaiting,
        peer_connection is None && !(connection_state == ConnectionState::Connecting && elapsed_ms
            < TUNNEL_WAIT_MS) ==> r == WaitDecision::GiveUp,
{
    match peer_connection {
        Some(id) => WaitDecision::Proceed(id),
        None => {
            if connection_state == ConnectionState::Connecting && elapsed_ms < TUNNEL_WAIT_MS {
                WaitDecision::KeepWaiting
            } else {
                WaitDecision::GiveUp
            }
        },
    }
}

} // verus!
