//! Framed tunnel message codec.
//!
//! A message is a tagged union; its payload encoding is a 32-bit
//! little-endian discriminant tag followed by the variant's fields, where a
//! string or byte sequence is a 64-bit little-endian length followed by the
//! raw bytes, and a port is 16-bit little-endian.  On the wire each payload
//! is prefixed by its length as a 32-bit big-endian integer.

use vstd::prelude::*;

verus! {

use vstd::bytes::{
    spec_u16_from_le_bytes, spec_u16_to_le_bytes, spec_u32_from_le_bytes, spec_u32_to_le_bytes,
    spec_u64_from_le_bytes, spec_u64_to_le_bytes, lemma_auto_spec_u16_to_from_le_bytes,
    lemma_auto_spec_u32_to_from_le_bytes, lemma_auto_spec_u64_to_from_le_bytes,
    u16_from_le_bytes, u16_to_le_bytes, u32_from_le_bytes, u32_to_le_bytes, u64_from_le_bytes,
    u64_to_le_bytes,
};
use vstd::slice::slice_to_vec;
use vstd::string::StrSliceExecFns;
use vstd::utf8::{valid_utf8, decode_utf8, encode_utf8};
use crate::text::utf8_to_string;

/// One tunnel protocol message.
#[derive(Debug, Clone, PartialEq)]
pub enum TunnelMessage {
    Connect { host: String, port: u16 },
    Connected,
    Error { message: String },
    Data { data: Vec<u8> },
    Close,
}

/// The mathematical model of a tunnel message.
#[verifier::ext_equal]
pub enum MessageModel {
    Connect { host: Seq<char>, port: u16 },
    Connected,
    Error { message: Seq<char> },
    Data { data: Seq<u8> },
    Close,
}

impl View for TunnelMessage {
    type V = MessageModel;

    open spec fn view(&self) -> MessageModel {
        match self {
            TunnelMessage::Connect { host, port } => MessageModel::Connect {
                host: host@,
                port: *port,
            },
            TunnelMessage::Connected => MessageModel::Connected,
            TunnelMessage::Error { message } => MessageModel::Error { message: message@ },
            TunnelMessage::Data { data } => MessageModel::Data { data: data@ },
            TunnelMessage::Close => MessageModel::Close,
        }
    }
}

/// Errors of the codec itself; stream-level failures (closed, truncated)
/// belong to the transport and are reported by the caller doing the reads.
#[derive(Debug, Clone, Copy, PartialEq, Eq, Structural)]
pub enum CodecError {
    /// The payload does not spell a message.
    Malformed,
    /// A frame length exceeds `MAX_FRAME_LEN`.
    Oversize,
}

/// Upper bound on a frame payload, 16 MiB, so that a hostile length prefix
/// cannot force an allocation.
pub const MAX_FRAME_LEN: u32 = 16777216;

/// A length-prefixed field: 64-bit little-endian length, then the bytes.
pub open spec fn spec_len_bytes(b: Seq<u8>) -> Seq<u8> {
    spec_u64_to_le_bytes(b.len() as u64) + b
}

/// The payload encoding of a message model.
pub open spec fn spec_encode_msg(m: MessageModel) -> Seq<u8> {
    match m {
        MessageModel::Connect { host, port } => spec_u32_to_le_bytes(0u32) + spec_len_bytes(
            encode_utf8(host),
        ) + spec_u16_to_le_bytes(port),
        MessageModel::Connected => spec_u32_to_le_bytes(1u32),
        MessageModel::Error { message } => spec_u32_to_le_bytes(2u32) + spec_len_bytes(
            encode_utf8(message),
        ),
        MessageModel::Data { data } => spec_u32_to_le_bytes(3u32) + spec_len_bytes(data),
        MessageModel::Close => spec_u32_to_le_bytes(4u32),
    }
}

/// A model is encodable when its variable-length field fits the 64-bit
/// length prefix; every value built from exec types satisfies this.
pub open spec fn spec_msg_wf(m: MessageModel) -> bool {
    match m {
        MessageModel::Connect { host, .. } => encode_utf8(host).len() <= u64::MAX,
        MessageModel::Error { message } => encode_utf8(message).len() <= u64::MAX,
        MessageModel::Data { data } => data.len() <= u64::MAX,
        _ => true,
    }
}

/// Split a length-prefixed field off the front of `b`.
pub open spec fn spec_take_len_bytes(b: Seq<u8>) -> Option<(Seq<u8>, Seq<u8>)> {
    if b.len() < 8 {
        None
    } else {
        let n = spec_u64_from_le_bytes(b.subrange(0, 8)) as int;
        if b.len() - 8 < n {
            None
        } else {
            Some((b.subrange(8, 8 + n), b.subrange(8 + n, b.len() as int)))
        }
    }
}

/// Split a length-prefixed UTF-8 string off the front of `b`.
pub open spec fn spec_take_string(b: Seq<u8>) -> Option<(Seq<char>, Seq<u8>)> {
    match spec_take_len_bytes(b) {
        None => None,
        Some((field, rest)) => if valid_utf8(field) {
            Some((decode_utf8(field), rest))
        } else {
            None
        },
    }
}

/// Decode a payload; `None` on any malformation, including trailing bytes.
pub open spec fn spec_decode_msg(b: Seq<u8>) -> Option<MessageModel> {
    if b.len() < 4 {
        None
    } else {
        let tag = spec_u32_from_le_bytes(b.subrange(0, 4));
        let rest = b.subrange(4, b.len() as int);
        if tag == 0 {
            match spec_take_string(rest) {
                None => None,
                Some((host, r2)) => if r2.len() == 2 {
                    Some(MessageModel::Connect { host, port: spec_u16_from_le_bytes(r2) })
                } else {
                    None
                },
            }
        } else if tag == 1 {
            if rest.len() == 0 {
                Some(MessageModel::Connected)
            } else {
                None
            }
        } else if tag == 2 {
            match spec_take_string(rest) {
                None => None,
                Some((message, r2)) => if r2.len() == 0 {
                    Some(MessageModel::Error { message })
                } else {
                    None
                },
            }
        } else if tag == 3 {
            match spec_take_len_bytes(rest) {
                None => None,
                Some((data, r2)) => if r2.len() == 0 {
                    Some(MessageModel::Data { data })
                } else {
                    None
                },
            }
        } else if tag == 4 {
            if rest.len() == 0 {
                Some(MessageModel::Close)
            } else {
                None
            }
        } else {
            None
        }
    }
}

/// Decoding inverts encoding: every well-formed message comes back from its
/// own payload unchanged.
pub proof fn lemma_codec_round_trip(m: MessageModel)
    requires
        spec_msg_wf(m),
    ensures
        spec_decode_msg(spec_encode_msg(m)) == Some(m),
{
    lemma_auto_spec_u16_to_from_le_bytes();
    lemma_auto_spec_u32_to_from_le_bytes();
    lemma_auto_spec_u64_to_from_le_bytes();
    broadcast use vstd::utf8::encode_utf8_valid_utf8, vstd::utf8::encode_utf8_decode_utf8;

    let e = spec_encode_msg(m);
    match m {
        MessageModel::Connect { host, port } => {
            let hb = encode_utf8(host);
            lemma_take_len_bytes(hb, spec_u16_to_le_bytes(port));
            assert(e.subrange(0, 4) =~= spec_u32_to_le_bytes(0u32));
            assert(e.subrange(4, e.len() as int) =~= spec_len_bytes(hb) + spec_u16_to_le_bytes(
                port,
            ));
            assert(spec_decode_msg(e) =~= Some(m));
        },
        MessageModel::Connected => {
            assert(e.subrange(0, 4) =~= spec_u32_to_le_bytes(1u32));
            assert(e.subrange(4, e.len() as int) =~= Seq::<u8>::empty());
            assert(spec_decode_msg(e) =~= Some(m));
        },
        MessageModel::Error { message } => {
            let mb = encode_utf8(message);
            lemma_take_len_bytes(mb, Seq::<u8>::empty());
            assert(e.subrange(0, 4) =~= spec_u32_to_le_bytes(2u32));
            assert(e.subrange(4, e.len() as int) =~= spec_len_bytes(mb) + Seq::<u8>::empty());
            assert(spec_decode_msg(e) =~= Some(m));
        },
        MessageModel::Data { data } => {
            lemma_take_len_bytes(data, Seq::<u8>::empty());
            assert(e.subrange(0, 4) =~= spec_u32_to_le_bytes(3u32));
            assert(e.subrange(4, e.len() as int) =~= spec_len_bytes(data) + Seq::<u8>::empty());
            assert(spec_decode_msg(e) =~= Some(m));
        },
        MessageModel::Close => {
            assert(e.subrange(0, 4) =~= spec_u32_to_le_bytes(4u32));
            assert(e.subrange(4, e.len() as int) =~= Seq::<u8>::empty());
            assert(spec_decode_msg(e) =~= Some(m));
        },
    }
}

/// Taking a length-prefixed field off `spec_len_bytes(b) + tail` yields `b`
/// and `tail`.
proof fn lemma_take_len_bytes(b: Seq<u8>, tail: Seq<u8>)
    requires
        b.len() <= u64::MAX,
    ensures
        spec_take_len_bytes(spec_len_bytes(b) + tail) == Some((b, tail)),
{
    lemma_auto_spec_u64_to_from_le_bytes();
    let whole = spec_len_bytes(b) + tail;
    assert(whole.subrange(0, 8) =~= spec_u64_to_le_bytes(b.len() as u64));
    assert(whole.subrange(8, 8 + b.len() as int) =~= b);
    assert(whole.subrange(8 + b.len() as int, whole.len() as int) =~= tail);
    assert(spec_take_len_bytes(whole) =~= Some((b, tail)));
}

/// Encode a message into its payload bytes.  The result always decodes back
/// to a model equal to the argument's.
pub fn encode_msg(m: &TunnelMessage) -> (r: Vec<u8>)
    ensures
        r@ == spec_encode_msg(m@),
        spec_msg_wf(m@),
        spec_decode_msg(r@) == Some(m@),
{
    let mut out: Vec<u8>;
    match m {
        TunnelMessage::Connect { host, port } => {
            out = u32_to_le_bytes(0);
            let hb = host.as_str().as_bytes_vec();
            let mut lb = u64_to_le_bytes(hb.len() as u64);
            out.append(&mut lb);
            let mut hbm = hb;
            out.append(&mut hbm);
            let mut pb = u16_to_le_bytes(*port);
            out.append(&mut pb);
            proof {
                assert(out@ =~= spec_encode_msg(m@));
            }
        },
        TunnelMessage::Connected => {
            out = u32_to_le_bytes(1);
        },
        TunnelMessage::Error { message } => {
            out = u32_to_le_bytes(2);
            let mb = message.as_str().as_bytes_vec();
            let mut lb = u64_to_le_bytes(mb.len() as u64);
            out.append(&mut lb);
            let mut mbm = mb;
            out.append(&mut mbm);
            proof {
                assert(out@ =~= spec_encode_msg(m@));
            }
        },
        TunnelMessage::Data { data } => {
            out = u32_to_le_bytes(3);
            let mut lb = u64_to_le_bytes(data.len() as u64);
            out.append(&mut lb);
            let mut db = slice_to_vec(data.as_slice());
            out.append(&mut db);
            proof {
                assert(out@ =~= spec_encode_msg(m@));
            }
        },
        TunnelMessage::Close => {
            out = u32_to_le_bytes(4);
        },
    }
    proof {
        lemma_codec_round_trip(m@);
    }
    out
}

/// Take a length-prefixed field off the front of `b`.
fn take_len_bytes<'a>(b: &'a [u8]) -> (r: Option<(&'a [u8], &'a [u8])>)
    ensures
        match spec_take_len_bytes(b@) {
            Some((field, rest)) => r matches Some((fe, re)) && fe@ == field && re@ == rest,
            None => r is None,
        },
{
    if b.len() < 8 {
        return None;
    }
    let n64 = u64_from_le_bytes(&b[0..8]);
    let rem = b.len() - 8;
    if n64 > rem as u64 {
        return None;
    }
    let n = n64 as usize;
    Some((&b[8..8 + n], &b[8 + n..b.len()]))
}

/// Decode a payload into a message; `CodecError::Malformed` exactly when the
/// payload spells no message.
pub fn decode_msg(buf: &[u8]) -> (r: Result<TunnelMessage, CodecError>)
    ensures
        match spec_decode_msg(buf@) {
            Some(v) => r matches Ok(m) && m@ == v,
            None => r matches Err(e) && e == CodecError::Malformed,
        },
{
    if buf.len() < 4 {
        return Err(CodecError::Malformed);
    }
    let tag = u32_from_le_bytes(&buf[0..4]);
    let rest = &buf[4..buf.len()];
    if tag == 0 {
        match take_len_bytes(rest) {
            None => Err(CodecError::Malformed),
            Some((field, r2)) => {
                match utf8_to_string(field) {
                    None => Err(CodecError::Malformed),
                    Some(host) => {
                        if r2.len() == 2 {
                            let port = u16_from_le_bytes(r2);
                            Ok(TunnelMessage::Connect { host, port })
                        } else {
                            Err(CodecError::Malformed)
                        }
                    },
                }
            },
        }
    } else if tag == 1 {
        if rest.len() == 0 {
            Ok(TunnelMessage::Connected)
        } else {
            Err(CodecError::Malformed)
        }
    } else if tag == 2 {
        match take_len_bytes(rest) {
            None => Err(CodecError::Malformed),
            Some((field, r2)) => {
                match utf8_to_string(field) {
                    None => Err(CodecError::Malformed),
                    Some(message) => {
                        if r2.len() == 0 {
                            Ok(TunnelMessage::Error { message })
                        } else {
                            Err(CodecError::Malformed)
                        }
                    },
                }
            },
        }
    } else if tag == 3 {
        match take_len_bytes(rest) {
            None => Err(CodecError::Malformed),
            Some((field, r2)) => {
                if r2.len() == 0 {
                    Ok(TunnelMessage::Data { data: slice_to_vec(field) })
                } else {
                    Err(CodecError::Malformed)
                }
            },
        }
    } else if tag == 4 {
        if rest.len() == 0 {
            Ok(TunnelMessage::Close)
        } else {
            Err(CodecError::Malformed)
        }
    } else {
        Err(CodecError::Malformed)
    }
}

/// The four big-endian bytes of a frame length.
pub open spec fn spec_u32_to_be_bytes(x: u32) -> Seq<u8> {
    seq![
        ((x >> 24) & 0xff) as u8,
        ((x >> 16) & 0xff) as u8,
        ((x >> 8) & 0xff) as u8,
        (x & 0xff) as u8,
    ]
}

/// A frame length read back from its four big-endian bytes.
pub open spec fn spec_u32_from_be_bytes(s: Seq<u8>) -> u32
    recommends
        s.len() == 4,
{
    (s[0] as u32) << 24 | (s[1] as u32) << 16 | (s[2] as u32) << 8 | (s[3] as u32)
}

pub proof fn lemma_u32_be_round_trip(x: u32)
    ensures
        spec_u32_to_be_bytes(x).len() == 4,
        spec_u32_from_be_bytes(spec_u32_to_be_bytes(x)) == x,
{
    let b0 = ((x >> 24) & 0xff) as u8;
    let b1 = ((x >> 16) & 0xff) as u8;
    let b2 = ((x >> 8) & 0xff) as u8;
    let b3 = (x & 0xff) as u8;
    assert((b0 as u32) << 24 | (b1 as u32) << 16 | (b2 as u32) << 8 | (b3 as u32) == x)
        by (bit_vector)
        requires
            b0 == ((x >> 24) & 0xff) as u8,
            b1 == ((x >> 16) & 0xff) as u8,
            b2 == ((x >> 8) & 0xff) as u8,
            b3 == (x & 0xff) as u8,
    ;
    assert(spec_u32_from_be_bytes(spec_u32_to_be_bytes(x)) == x);
}

/// A whole frame: the payload length as 32-bit big-endian, then the payload.
pub open spec fn spec_frame(payload: Seq<u8>) -> Seq<u8>
    recommends
        payload.len() <= MAX_FRAME_LEN,
{
    spec_u32_to_be_bytes(payload.len() as u32) + payload
}

/// Encode a message and prefix the payload with its big-endian length;
/// `CodecError::Oversize` exactly when the payload exceeds `MAX_FRAME_LEN`.
pub fn encode_frame(m: &TunnelMessage) -> (r: Result<Vec<u8>, CodecError>)
    ensures
        spec_encode_msg(m@).len() <= MAX_FRAME_LEN ==> (r matches Ok(v) && v@ == spec_frame(
            spec_encode_msg(m@),
        ) && spec_u32_from_be_bytes(v@.subrange(0, 4)) == spec_encode_msg(m@).len()
            && spec_decode_msg(v@.subrange(4, v@.len() as int)) == Some(m@)),
        spec_encode_msg(m@).len() > MAX_FRAME_LEN ==> (r matches Err(e) && e
            == CodecError::Oversize),
{
    let payload = encode_msg(m);
    if payload.len() > MAX_FRAME_LEN as usize {
        return Err(CodecError::Oversize);
    }
    let n = payload.len() as u32;
    let mut out: Vec<u8> = Vec::new();
    out.push(((n >> 24) & 0xff) as u8);
    out.push(((n >> 16) & 0xff) as u8);
    out.push(((n >> 8) & 0xff) as u8);
    out.push((n & 0xff) as u8);
    let mut pm = payload;
    out.append(&mut pm);
    proof {
        assert(out@ =~= spec_frame(spec_encode_msg(m@)));
        lemma_u32_be_round_trip(n);
        assert(out@.subrange(0, 4) =~= spec_u32_to_be_bytes(n));
        assert(out@.subrange(4, out@.len() as int) =~= spec_encode_msg(m@));
    }
    Ok(out)
}

/// Read a frame length from its four header bytes and screen it against
/// `MAX_FRAME_LEN`; `CodecError::Oversize` exactly when it is larger.
pub fn parse_frame_len(b: &[u8]) -> (r: Result<usize, CodecError>)
    requires
        b@.len() == 4,
    ensures
        spec_u32_from_be_bytes(b@) <= MAX_FRAME_LEN ==> (r matches Ok(n) && n
            == spec_u32_from_be_bytes(b@)),
        spec_u32_from_be_bytes(b@) > MAX_FRAME_LEN ==> (r matches Err(e) && e
            == CodecError::Oversize),
{
    let n: u32 = (b[0] as u32) << 24 | (b[1] as u32) << 16 | (b[2] as u32) << 8 | (b[3] as u32);
    if n > MAX_FRAME_LEN {
        Err(CodecError::Oversize)
    } else {
        Ok(n as usize)
    }
}

} // verus!
