//! SOCKS5 front-end decisions: request classification, reply bytes, host
//! strings for each address type, loop prevention, and the mapping from a
//! tunnel response to the SOCKS reply code.

use vstd::prelude::*;

verus! {

use vstd::utf8::{valid_utf8, decode_utf8};
use vstd::string::StringExecFns;
use crate::codec::{TunnelMessage, MessageModel};
use crate::text::{
    utf8_to_string, lemma_ascii_bytes_decode, str_eq_str, str_has_prefix, spec_dec_bytes,
    lemma_dec_bytes_ascii, dec_bytes_u16,
};

pub const SOCKS_VERSION: u8 = 5;

pub const SOCKS_CMD_CONNECT: u8 = 1;

pub const SOCKS_ADDR_TYPE_IPV4: u8 = 1;

pub const SOCKS_ADDR_TYPE_DOMAIN: u8 = 3;

pub const SOCKS_ADDR_TYPE_IPV6: u8 = 4;

/// Reply codes of the SOCKS5 reply message.
pub const REPLY_SUCCESS: u8 = 0;

pub const REPLY_GENERAL_FAILURE: u8 = 1;

pub const REPLY_HOST_UNREACHABLE: u8 = 4;

pub const REPLY_CONNECTION_REFUSED: u8 = 5;

pub const REPLY_COMMAND_NOT_SUPPORTED: u8 = 7;

pub const REPLY_ADDR_TYPE_NOT_SUPPORTED: u8 = 8;

/// A loopback host: "localhost", "::1", or anything starting with "127.".
pub open spec fn spec_is_loopback_host(h: Seq<char>) -> bool {
    ||| h == "localhost"@
    ||| h == "::1"@
    ||| (h.len() >= 4 && h.subrange(0, 4) == "127."@)
}

/// A common SOCKS port.
pub open spec fn spec_is_socks_port(port: u16) -> bool {
    port == 1080 || port == 1081 || port == 9050
}

/// True exactly when the host is a loopback name and the port is a common
/// SOCKS port; tunneling to such a target would loop back into the proxy.
pub fn is_loopback_address(host: &str, port: u16) -> (r: bool)
    ensures
        r == (spec_is_loopback_host(host@) && spec_is_socks_port(port)),
{
    let is_loopback_host = str_eq_str(host, "localhost") || str_eq_str(host, "127.0.0.1")
        || str_eq_str(host, "::1") || str_has_prefix(host, "127.");
    proof {
        reveal_strlit("localhost");
        reveal_strlit("127.0.0.1");
        reveal_strlit("::1");
        reveal_strlit("127.");
        if host@ == "127.0.0.1"@ {
            assert(host@.subrange(0, 4) =~= "127."@);
        }
    }
    let is_socks_port = port == 1080 || port == 1081 || port == 9050;
    is_loopback_host && is_socks_port
}

/// The address type of a SOCKS5 CONNECT request.
#[derive(Debug, Clone, Copy, PartialEq, Eq, Structural)]
pub enum AddrType {
    Ipv4,
    Domain,
    Ipv6,
}

/// What a SOCKS5 request header asks for.
#[derive(Debug, Clone, Copy, PartialEq, Eq, Structural)]
pub enum RequestKind {
    Connect(AddrType),
    UnsupportedCommand,
    UnsupportedAddrType,
}

/// Classify the command and address-type bytes of a SOCKS5 request.
/// Anything but CONNECT is refused before the address type is looked at.
pub fn classify_request(cmd: u8, atyp: u8) -> (r: RequestKind)
    ensures
        cmd != SOCKS_CMD_CONNECT ==> r == RequestKind::UnsupportedCommand,
        cmd == SOCKS_CMD_CONNECT && atyp == SOCKS_ADDR_TYPE_IPV4 ==> r == RequestKind::Connect(
            AddrType::Ipv4,
        ),
        cmd == SOCKS_CMD_CONNECT && atyp == SOCKS_ADDR_TYPE_DOMAIN ==> r == RequestKind::Connect(
            AddrType::Domain,
        ),
        cmd == SOCKS_CMD_CONNECT && atyp == SOCKS_ADDR_TYPE_IPV6 ==> r == RequestKind::Connect(
            AddrType::Ipv6,
        ),
        cmd == SOCKS_CMD_CONNECT && atyp != SOCKS_ADDR_TYPE_IPV4 && atyp != SOCKS_ADDR_TYPE_DOMAIN
            && atyp != SOCKS_ADDR_TYPE_IPV6 ==> r == RequestKind::UnsupportedAddrType,
{
    if cmd != SOCKS_CMD_CONNECT {
        RequestKind::UnsupportedCommand
    } else if atyp == SOCKS_ADDR_TYPE_IPV4 {
        RequestKind::Connect(AddrType::Ipv4)
    } else if atyp == SOCKS_ADDR_TYPE_DOMAIN {
        RequestKind::Connect(AddrType::Domain)
    } else if atyp == SOCKS_ADDR_TYPE_IPV6 {
        RequestKind::Connect(AddrType::Ipv6)
    } else {
        RequestKind::UnsupportedAddrType
    }
}

/// The ten bytes of a SOCKS5 reply with the given code and a zero IPv4
/// bound address.
pub open spec fn spec_socks_reply(code: u8) -> Seq<u8> {
    seq![5u8, code, 0u8, 1u8, 0u8, 0u8, 0u8, 0u8, 0u8, 0u8]
}

pub fn socks_reply(code: u8) -> (r: Vec<u8>)
    ensures
        r@ == spec_socks_reply(code),
{
    let mut v: Vec<u8> = Vec::new();
    v.push(5);
    v.push(code);
    v.push(0);
    v.push(1);
    v.push(0);
    v.push(0);
    v.push(0);
    v.push(0);
    v.push(0);
    v.push(0);
    proof {
        assert(v@ =~= spec_socks_reply(code));
    }
    v
}

/// The SOCKS reply code owed to the client for each possible tunnel
/// response: success for `Connected`, connection refused for `Error`, and
/// general failure for anything else.
pub fn reply_code_for_tunnel_response(msg: &TunnelMessage) -> (r: u8)
    ensures
        msg@ == MessageModel::Connected ==> r == REPLY_SUCCESS,
        (msg@ matches MessageModel::Error { .. }) ==> r == REPLY_CONNECTION_REFUSED,
        msg@ != MessageModel::Connected && !(msg@ matches MessageModel::Error { .. }) ==> r
            == REPLY_GENERAL_FAILURE,
{
    match msg {
        TunnelMessage::Connected => REPLY_SUCCESS,
        TunnelMessage::Error { .. } => REPLY_CONNECTION_REFUSED,
        _ => REPLY_GENERAL_FAILURE,
    }
}

/// What the remote side does with the first message of a tunnel stream.
#[derive(Debug)]
pub enum RequestPlan {
    /// Open a TCP connection to this destination.
    Dial { host: String, port: u16 },
    /// Refuse: the destination would loop back into the proxy.
    RejectLoop { message: String },
    /// Not a `Connect`: drop the stream.
    Ignore,
}

/// Decide a tunnel request: a `Connect` either dials or, for a loopback
/// target on a SOCKS port, is refused with the loop error; anything else is
/// ignored.
pub fn plan_tunnel_request(msg: &TunnelMessage) -> (r: RequestPlan)
    ensures
        match msg@ {
            MessageModel::Connect { host, port } => {
                if spec_is_loopback_host(host) && spec_is_socks_port(port) {
                    r matches RequestPlan::RejectLoop { message } && message@
                        == "Loop detected: cannot tunnel to local SOCKS proxy"@
                } else {
                    r matches RequestPlan::Dial { host: h, port: p } && h@ == host && p == port
                }
            },
            _ => r is Ignore,
        },
{
    match msg {
        TunnelMessage::Connect { host, port } => {
            if is_loopback_address(host.as_str(), *port) {
                RequestPlan::RejectLoop {
                    message: String::from_str("Loop detected: cannot tunnel to local SOCKS proxy"),
                }
            } else {
                RequestPlan::Dial { host: host.clone(), port: *port }
            }
        },
        _ => RequestPlan::Ignore,
    }
}

/// A port number read from its two big-endian bytes, as the SOCKS5 request
/// carries it.
pub fn port_from_be(hi: u8, lo: u8) -> (r: u16)
    ensures
        r == hi * 256 + lo,
{
    (hi as u16) * 256 + (lo as u16)
}

/// The dotted-quad form of an IPv4 address, as ASCII bytes.
pub open spec fn spec_ipv4_host_bytes(o: Seq<u8>) -> Seq<u8>
    recommends
        o.len() == 4,
{
    spec_dec_bytes(o[0] as int) + seq![46u8] + spec_dec_bytes(o[1] as int) + seq![46u8]
        + spec_dec_bytes(o[2] as int) + seq![46u8] + spec_dec_bytes(o[3] as int)
}

/// Format the four octets of an IPv4 address as a dotted quad.
pub fn ipv4_host_string(o: &[u8]) -> (r: String)
    requires
        o@.len() == 4,
    ensures
        valid_utf8(spec_ipv4_host_bytes(o@)),
        r@ == decode_utf8(spec_ipv4_host_bytes(o@)),
{
    let mut b = dec_bytes_u16(o[0] as u16);
    b.push(46);
    let mut t1 = dec_bytes_u16(o[1] as u16);
    b.append(&mut t1);
    b.push(46);
    let mut t2 = dec_bytes_u16(o[2] as u16);
    b.append(&mut t2);
    b.push(46);
    let mut t3 = dec_bytes_u16(o[3] as u16);
    b.append(&mut t3);
    proof {
        assert(b@ =~= spec_ipv4_host_bytes(o@));
        lemma_dec_bytes_ascii(o@[0] as int);
        lemma_dec_bytes_ascii(o@[1] as int);
        lemma_dec_bytes_ascii(o@[2] as int);
        lemma_dec_bytes_ascii(o@[3] as int);
        lemma_ascii_bytes_decode(b@);
    }
    match utf8_to_string(b.as_slice()) {
        Some(s) => s,
        None => {
            proof {
                assert(false);
            }
            String::new()
        },
    }
}

/// A lowercase hexadecimal digit as its ASCII byte.
pub open spec fn spec_hex_digit(d: u8) -> u8
    recommends
        d < 16,
{
    if d < 10 {
        (48 + d) as u8
    } else {
        (87 + d) as u8
    }
}

/// One byte as two lowercase hexadecimal digits.
pub open spec fn spec_hex2(b: u8) -> Seq<u8> {
    seq![spec_hex_digit(b / 16), spec_hex_digit(b % 16)]
}

/// The first `k` colon-separated two-byte groups of an IPv6 address.
pub open spec fn spec_ipv6_groups(a: Seq<u8>, k: int) -> Seq<u8>
    recommends
        a.len() == 16,
        0 <= k <= 8,
    decreases k,
{
    if k <= 0 {
        Seq::empty()
    } else if k == 1 {
        spec_hex2(a[0]) + spec_hex2(a[1])
    } else {
        spec_ipv6_groups(a, k - 1) + seq![58u8] + spec_hex2(a[2 * (k - 1)]) + spec_hex2(
            a[2 * (k - 1) + 1],
        )
    }
}

/// An IPv6 address in brackets: eight groups of four lowercase hex digits,
/// without zero compression.
pub open spec fn spec_ipv6_host_bytes(a: Seq<u8>) -> Seq<u8>
    recommends
        a.len() == 16,
{
    seq![91u8] + spec_ipv6_groups(a, 8) + seq![93u8]
}

/// Format the sixteen bytes of an IPv6 address as a bracketed hex string.
pub fn ipv6_host_string(a: &[u8]) -> (r: String)
    requires
        a@.len() == 16,
    ensures
        valid_utf8(spec_ipv6_host_bytes(a@)),
        r@ == decode_utf8(spec_ipv6_host_bytes(a@)),
{
    let mut b: Vec<u8> = Vec::new();
    b.push(91);
    let mut k: usize = 0;
    while k < 8
        invariant
            a@.len() == 16,
            k <= 8,
            b@ == seq![91u8] + spec_ipv6_groups(a@, k as int),
        decreases 8 - k,
    {
        if k > 0 {
            b.push(58);
        }
        let hi = a[2 * k];
        let lo = a[2 * k + 1];
        b.push(hex_digit(hi / 16));
        b.push(hex_digit(hi % 16));
        b.push(hex_digit(lo / 16));
        b.push(hex_digit(lo % 16));
        proof {
            assert(b@ =~= seq![91u8] + spec_ipv6_groups(a@, k as int + 1));
        }
        k = k + 1;
    }
    b.push(93);
    proof {
        assert(b@ =~= spec_ipv6_host_bytes(a@));
        assert forall|i: int| 0 <= i < spec_ipv6_host_bytes(a@).len() implies spec_ipv6_host_bytes(
            a@,
        )[i] < 128 by {
            lemma_ipv6_bytes_ascii(a@, 8);
        }
        lemma_ascii_bytes_decode(b@);
    }
    match utf8_to_string(b.as_slice()) {
        Some(s) => s,
        None => {
            proof {
                assert(false);
            }
            String::new()
        },
    }
}

/// Every byte of the hex groups is ASCII.
proof fn lemma_ipv6_bytes_ascii(a: Seq<u8>, k: int)
    requires
        a.len() == 16,
        0 <= k <= 8,
    ensures
        forall|i: int| 0 <= i < spec_ipv6_groups(a, k).len() ==> spec_ipv6_groups(a, k)[i] < 128,
    decreases k,
{
    if k == 1 {
        let g = spec_ipv6_groups(a, 1);
        assert(g =~= spec_hex2(a[0]) + spec_hex2(a[1]));
        assert forall|i: int| 0 <= i < g.len() implies g[i] < 128 by {
            assert(g[0] == spec_hex_digit(a[0] / 16));
            assert(g[1] == spec_hex_digit(a[0] % 16));
            assert(g[2] == spec_hex_digit(a[1] / 16));
            assert(g[3] == spec_hex_digit(a[1] % 16));
        }
    } else if k > 1 {
        lemma_ipv6_bytes_ascii(a, k - 1);
        let p = spec_ipv6_groups(a, k - 1);
        let h1 = spec_hex2(a[2 * (k - 1)]);
        let h2 = spec_hex2(a[2 * (k - 1) + 1]);
        let tail = seq![58u8] + h1 + h2;
        assert(spec_ipv6_groups(a, k) =~= p + tail);
        assert forall|i: int| 0 <= i < spec_ipv6_groups(a, k).len() implies spec_ipv6_groups(
            a,
            k,
        )[i] < 128 by {
            assert(tail[0] == 58u8);
            assert(tail[1] == spec_hex_digit(a[2 * (k - 1)] / 16));
            assert(tail[2] == spec_hex_digit(a[2 * (k - 1)] % 16));
            assert(tail[3] == spec_hex_digit(a[2 * (k - 1) + 1] / 16));
            assert(tail[4] == spec_hex_digit(a[2 * (k - 1) + 1] % 16));
            if i < p.len() {
                assert(spec_ipv6_groups(a, k)[i] == p[i]);
            } else {
                assert(spec_ipv6_groups(a, k)[i] == tail[i - p.len()]);
            }
        }
    }
}

fn hex_digit(d: u8) -> (r: u8)
    requires
        d < 16,
    ensures
        r == spec_hex_digit(d),
{
    if d < 10 {
        48 + d
    } else {
        87 + d
    }
}

} // verus!
