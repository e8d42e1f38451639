//! Bookkeeping of the bidirectional relay: byte counters, the one-shot
//! first-packet flags for each direction, and the sniffed tag (SNI hostname
//! or "METHOD PATH").  The surrounding program pumps the sockets and
//! streams; every decision about what a packet means is taken here.

use vstd::prelude::*;

verus! {

use vstd::slice::slice_to_vec;
use vstd::string::{StringExecFns, StrSliceExecFns};
use vstd::utf8::{valid_utf8, decode_utf8};
use crate::codec::{TunnelMessage, MessageModel};
use crate::http::{extract_http_info, spec_extract_http};
use crate::sni::{extract_sni, spec_extract_sni};

/// Bytes read from the local socket per relay step.
pub const RELAY_BUF_SIZE: usize = 8192;

/// The tag a packet yields as a TLS ClientHello: its SNI hostname.
pub open spec fn spec_sni_tag(data: Seq<u8>) -> Option<Seq<char>> {
    match spec_extract_sni(data) {
        Some(hb) => if valid_utf8(hb) {
            Some(decode_utf8(hb))
        } else {
            None
        },
        None => None,
    }
}

/// The tag a packet yields as an HTTP request: "METHOD PATH".
pub open spec fn spec_http_tag(data: Seq<u8>) -> Option<Seq<char>> {
    match spec_extract_http(data) {
        Some(parts) => if valid_utf8(parts.0) && valid_utf8(parts.1) && (parts.2 matches Some(hb)
            ==> valid_utf8(hb)) {
            Some(decode_utf8(parts.0) + " "@ + decode_utf8(parts.1))
        } else {
            None
        },
        None => None,
    }
}

/// The tag after sniffing a first packet: the SNI hostname if the packet is
/// a ClientHello, else "METHOD PATH" if it is an HTTP request, else the tag
/// stands as it was.
pub open spec fn spec_tag_after(old_tag: Option<Seq<char>>, data: Seq<u8>) -> Option<Seq<char>> {
    match spec_sni_tag(data) {
        Some(t) => Some(t),
        None => match spec_http_tag(data) {
            Some(t) => Some(t),
            None => old_tag,
        },
    }
}

/// What the relay does with one message from the peer stream.
#[derive(Debug)]
pub enum RelayAction {
    /// Write these bytes to the local socket.
    WriteSocket(Vec<u8>),
    /// The peer closed the request: stop the relay.
    Stop,
    /// An unexpected variant: ignore it.
    Ignore,
}

/// The relay's running state for one tunneled request.
pub struct RelayState {
    /// True while the first packet from the socket side is still awaited.
    pub first_packet_socket: bool,
    /// True while the first packet from the tunnel side is still awaited.
    pub first_packet_tunnel: bool,
    pub bytes_sent: u64,
    pub bytes_received: u64,
    /// The sniffed first-packet tag, from whichever direction spoke first.
    pub tag: Option<String>,
}

impl RelayState {
    pub open spec fn tag_view(&self) -> Option<Seq<char>> {
        match self.tag {
            Some(s) => Some(s@),
            None => None,
        }
    }

    pub fn new() -> (r: RelayState)
        ensures
            r.first_packet_socket,
            r.first_packet_tunnel,
            r.bytes_sent == 0,
            r.bytes_received == 0,
            r.tag_view() is None,
    {
        RelayState {
            first_packet_socket: true,
            first_packet_tunnel: true,
            bytes_sent: 0,
            bytes_received: 0,
            tag: None,
        }
    }

    /// Sniff one first packet and update the tag accordingly.
    fn update_tag(&mut self, buf: &[u8])
        ensures
            final(self).tag_view() == spec_tag_after(old(self).tag_view(), buf@),
            final(self).first_packet_socket == old(self).first_packet_socket,
            final(self).first_packet_tunnel == old(self).first_packet_tunnel,
            final(self).bytes_sent == old(self).bytes_sent,
            final(self).bytes_received == old(self).bytes_received,
    {
        match extract_sni(buf) {
            Some(t) => {
                self.tag = Some(t);
            },
            None => {
                match extract_http_info(buf) {
                    Some(info) => {
                        let mut t = info.method;
                        t.append(" ");
                        t.append(info.path.as_str());
                        self.tag = Some(t);
                    },
                    None => {},
                }
            },
        }
    }

    /// The socket side produced `buf`: account for it, sniff it if it is
    /// the first socket-side packet, and frame it as a `Data` message for
    /// the peer stream.  The sent counter saturates rather than wraps.
    pub fn on_socket_data(&mut self, buf: &[u8]) -> (msg: TunnelMessage)
        ensures
            !final(self).first_packet_socket,
            final(self).first_packet_tunnel == old(self).first_packet_tunnel,
            final(self).bytes_received == old(self).bytes_received,
            final(self).bytes_sent as int == if old(self).bytes_sent + buf@.len() <= u64::MAX {
                old(self).bytes_sent + buf@.len()
            } else {
                u64::MAX as int
            },
            old(self).first_packet_socket ==> final(self).tag_view() == spec_tag_after(
                old(self).tag_view(),
                buf@,
            ),
            !old(self).first_packet_socket ==> final(self).tag_view() == old(self).tag_view(),
            msg@ == (MessageModel::Data { data: buf@ }),
    {
        if self.first_packet_socket {
            self.first_packet_socket = false;
            self.update_tag(buf);
        }
        let add = buf.len() as u64;
        if add > u64::MAX - self.bytes_sent {
            self.bytes_sent = u64::MAX;
        } else {
            self.bytes_sent = self.bytes_sent + add;
        }
        TunnelMessage::Data { data: slice_to_vec(buf) }
    }

    /// The tunnel side produced `msg`: `Data` is accounted, sniffed if it
    /// is the first tunnel-side packet, and handed back for the socket;
    /// `Close` stops the relay; anything else is ignored.  The received
    /// counter saturates rather than wraps.
    pub fn on_tunnel_message(&mut self, msg: TunnelMessage) -> (act: RelayAction)
        ensures
            final(self).first_packet_socket == old(self).first_packet_socket,
            final(self).bytes_sent == old(self).bytes_sent,
            match msg@ {
                MessageModel::Data { data } => {
                    &&& !final(self).first_packet_tunnel
                    &&& final(self).bytes_received as int == if old(self).bytes_received
                        + data.len() <= u64::MAX {
                        old(self).bytes_received + data.len()
                    } else {
                        u64::MAX as int
                    }
                    &&& (old(self).first_packet_tunnel ==> final(self).tag_view()
                        == spec_tag_after(old(self).tag_view(), data))
                    &&& (!old(self).first_packet_tunnel ==> final(self).tag_view() == old(
                        self,
                    ).tag_view())
                    &&& (act matches RelayAction::WriteSocket(v) && v@ == data)
                },
                MessageModel::Close => act is Stop && *final(self) == *old(self),
                _ => act is Ignore && *final(self) == *old(self),
            },
    {
        match msg {
            TunnelMessage::Data { data } => {
                if self.first_packet_tunnel {
                    self.first_packet_tunnel = false;
                    self.update_tag(data.as_slice());
                }
                let add = data.len() as u64;
                if add > u64::MAX - self.bytes_received {
                    self.bytes_received = u64::MAX;
                } else {
                    self.bytes_received = self.bytes_received + add;
                }
                RelayAction::WriteSocket(data)
            },
            TunnelMessage::Close => RelayAction::Stop,
            _ => RelayAction::Ignore,
        }
    }
}

} // verus!
