//! TLS ClientHello SNI sniffer: a total function over byte buffers that
//! never fails, returning the SNI hostname when the buffer parses as a
//! ClientHello carrying one, and nothing on any malformation.

use vstd::prelude::*;

verus! {

use vstd::utf8::{valid_utf8, decode_utf8};
use crate::text::utf8_to_string;

/// A 16-bit big-endian quantity read from two bytes.
pub open spec fn spec_be16(hi: u8, lo: u8) -> int {
    hi * 256 + lo
}

/// Walk the extension list from `pos` up to `ext_end` (both byte offsets)
/// looking for the server-name extension (type 0); yield its hostname bytes.
pub open spec fn spec_walk_extensions(data: Seq<u8>, pos: int, ext_end: int) -> Option<Seq<u8>>
    decreases ext_end - pos,
{
    if pos + 4 <= ext_end && pos + 4 <= data.len() {
        let ext_type = spec_be16(data[pos], data[pos + 1]);
        let ext_len = spec_be16(data[pos + 2], data[pos + 3]);
        let p = pos + 4;
        if ext_type == 0 && p + ext_len <= data.len() {
            // server_name: list length (2), name type (1), name length (2), name
            if ext_len >= 5 && data[p + 2] == 0 {
                let name_len = spec_be16(data[p + 3], data[p + 4]);
                if p + 5 + name_len <= data.len() {
                    Some(data.subrange(p + 5, p + 5 + name_len))
                } else {
                    None
                }
            } else {
                None
            }
        } else if p + ext_len + 4 <= ext_end {
            spec_walk_extensions(data, p + ext_len, ext_end)
        } else {
            None
        }
    } else {
        None
    }
}

/// The hostname bytes of the SNI extension of a TLS ClientHello, if the
/// buffer holds one: record type 0x16, major version 0x03, handshake type
/// 0x01, then session id, cipher suites, compression methods, extensions.
pub open spec fn spec_extract_sni(data: Seq<u8>) -> Option<Seq<u8>> {
    if data.len() < 43 {
        None
    } else if data[0] != 0x16 || data[1] != 0x03 || data[5] != 0x01 {
        None
    } else if 43 >= data.len() {
        None
    } else {
        let after_session = 44 + data[43];
        if after_session + 2 > data.len() {
            None
        } else {
            let cipher_len = spec_be16(data[after_session], data[after_session + 1]);
            let after_ciphers = after_session + 2 + cipher_len;
            if after_ciphers >= data.len() {
                None
            } else {
                let after_compression = after_ciphers + 1 + data[after_ciphers];
                if after_compression + 2 > data.len() {
                    None
                } else {
                    let ext_len = spec_be16(
                        data[after_compression],
                        data[after_compression + 1],
                    );
                    let ext_start = after_compression + 2;
                    spec_walk_extensions(data, ext_start, ext_start + ext_len)
                }
            }
        }
    }
}

/// Extract the SNI hostname from a TLS ClientHello; total over all buffers.
pub fn extract_sni(data: &[u8]) -> (r: Option<String>)
    ensures
        match spec_extract_sni(data@) {
            Some(hb) => {
                &&& valid_utf8(hb) ==> (r matches Some(s) && s@ == decode_utf8(hb))
                &&& !valid_utf8(hb) ==> r is None
            },
            None => r is None,
        },
{
    let len = data.len();
    if len < 43 {
        return None;
    }
    if data[0] != 0x16 || data[1] != 0x03 || data[5] != 0x01 {
        return None;
    }
    if len == 43 {
        return None;
    }
    let sid = data[43] as usize;
    if sid + 46 > len {
        return None;
    }
    let mut pos: usize = 44 + sid;
    let cipher_len = (data[pos] as usize) * 256 + (data[pos + 1] as usize);
    if cipher_len >= len - (pos + 2) {
        return None;
    }
    pos = pos + 2 + cipher_len;
    let comp_len = data[pos] as usize;
    if comp_len + 3 > len - pos {
        return None;
    }
    pos = pos + 1 + comp_len;
    let ext_len = (data[pos] as usize) * 256 + (data[pos + 1] as usize);
    pos = pos + 2;
    let ghost ext_end: int = pos as int + ext_len as int;
    let end_min: usize = if ext_len > len - pos {
        len
    } else {
        pos + ext_len
    };
    while pos < end_min && end_min - pos >= 4
        invariant
            len == data@.len(),
            pos <= end_min <= len,
            end_min as int == if ext_end <= len as int {
                ext_end
            } else {
                len as int
            },
            spec_extract_sni(data@) == spec_walk_extensions(data@, pos as int, ext_end),
        decreases end_min - pos,
    {
        let ext_type = (data[pos] as usize) * 256 + (data[pos + 1] as usize);
        let ext_len_i = (data[pos + 2] as usize) * 256 + (data[pos + 3] as usize);
        let p = pos + 4;
        if ext_type == 0 {
            if ext_len_i <= len - p {
                if ext_len_i >= 5 && data[p + 2] == 0 {
                    let name_len = (data[p + 3] as usize) * 256 + (data[p + 4] as usize);
                    if name_len <= len - (p + 5) {
                        return utf8_to_string(&data[p + 5..p + 5 + name_len]);
                    } else {
                        return None;
                    }
                } else {
                    return None;
                }
            } else {
                return None;
            }
        } else {
            if ext_len_i > len - p {
                proof {
                    if p as int + ext_len_i as int + 4 <= ext_end {
                        assert(spec_walk_extensions(data@, p + ext_len_i as int, ext_end)
                            is None);
                    }
                    assert(spec_walk_extensions(data@, pos as int, ext_end) is None);
                }
                return None;
            }
            let next = p + ext_len_i;
            proof {
                if next as int + 4 > ext_end {
                    assert(spec_walk_extensions(data@, next as int, ext_end) is None);
                }
                assert(spec_walk_extensions(data@, pos as int, ext_end)
                    == spec_walk_extensions(data@, next as int, ext_end));
            }
            pos = next;
            if pos > end_min {
                proof {
                    assert(spec_walk_extensions(data@, pos as int, ext_end) is None);
                }
                return None;
            }
        }
    }
    None
}

} // verus!
