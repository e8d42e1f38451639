//! HTTP/1.x request sniffer: a total function over byte buffers that
//! extracts the method, the path, and the Host header from a request's
//! first packet, and returns nothing on any malformation.

use vstd::prelude::*;

verus! {

use vstd::utf8::{valid_utf8, decode_utf8};
use crate::text::utf8_to_string;

/// The request line's method, path, and optional Host header value.
#[derive(Debug, Clone, PartialEq)]
pub struct HttpRequestInfo {
    pub method: String,
    pub path: String,
    pub host: Option<String>,
}

/// ASCII whitespace, as the request-line tokenizer sees it.
pub open spec fn spec_is_ws(b: u8) -> bool {
    b == 32 || b == 9 || b == 10 || b == 13 || b == 11 || b == 12
}

/// Index of the first line feed at or after `i`, or the length.
pub open spec fn spec_find_nl(s: Seq<u8>, i: int) -> int
    decreases s.len() - i,
{
    if i >= s.len() {
        s.len() as int
    } else if s[i] == 10 {
        i
    } else {
        spec_find_nl(s, i + 1)
    }
}

pub proof fn lemma_find_nl_bounds(s: Seq<u8>, i: int)
    requires
        i <= s.len(),
    ensures
        i <= spec_find_nl(s, i) <= s.len(),
    decreases s.len() - i,
{
    if i < s.len() && s[i] != 10 {
        lemma_find_nl_bounds(s, i + 1);
    }
}

/// End of the line content that starts at `i`: the next line feed, with one
/// carriage return before it stripped.
pub open spec fn spec_content_end(s: Seq<u8>, i: int) -> int {
    let e = spec_find_nl(s, i);
    if e > i && s[e - 1] == 13 {
        e - 1
    } else {
        e
    }
}

/// First non-whitespace position in `[i, end)`, or `end`.
pub open spec fn spec_skip_ws(s: Seq<u8>, i: int, end: int) -> int
    decreases end - i,
{
    if i >= end {
        i
    } else if spec_is_ws(s[i]) {
        spec_skip_ws(s, i + 1, end)
    } else {
        i
    }
}

/// First whitespace position at or after `i` in `[i, end)`, or `end`.
pub open spec fn spec_skip_token(s: Seq<u8>, i: int, end: int) -> int
    decreases end - i,
{
    if i >= end {
        i
    } else if !spec_is_ws(s[i]) {
        spec_skip_token(s, i + 1, end)
    } else {
        i
    }
}

/// Index of the first colon in `[i, end)`, or `end`.
pub open spec fn spec_find_colon(s: Seq<u8>, i: int, end: int) -> int
    decreases end - i,
{
    if i >= end {
        end
    } else if s[i] == 58 {
        i
    } else {
        spec_find_colon(s, i + 1, end)
    }
}

/// Position after the trailing whitespace run that ends at `b`, scanning
/// down but not below `a`.
pub open spec fn spec_rskip_ws(s: Seq<u8>, a: int, b: int) -> int
    decreases b - a,
{
    if b <= a {
        b
    } else if spec_is_ws(s[b - 1]) {
        spec_rskip_ws(s, a, b - 1)
    } else {
        b
    }
}

/// The bytes of `[a, b)` with surrounding whitespace removed.
pub open spec fn spec_trim(s: Seq<u8>, a: int, b: int) -> Seq<u8> {
    let x = spec_skip_ws(s, a, b);
    let y = spec_rskip_ws(s, a, b);
    if x >= y {
        Seq::empty()
    } else {
        s.subrange(x, y)
    }
}

/// ASCII lowercase of one byte.
pub open spec fn spec_lower(b: u8) -> u8 {
    if 65 <= b <= 90 {
        (b + 32) as u8
    } else {
        b
    }
}

/// Whether `[a, b)`, trimmed and lowercased, spells "host".
pub open spec fn spec_is_host_header_name(s: Seq<u8>, a: int, b: int) -> bool {
    spec_trim(s, a, b).map_values(|c: u8| spec_lower(c)) == seq![104u8, 111u8, 115u8, 116u8]
}

/// Scan header lines from `i` for the first Host header; stop at the first
/// empty line.  Yields the trimmed header value.
pub open spec fn spec_find_host(s: Seq<u8>, i: int) -> Option<Seq<u8>>
    decreases s.len() - i,
    via spec_find_host_decreases
{
    if i >= s.len() {
        None
    } else {
        let e = spec_find_nl(s, i);
        let c = spec_content_end(s, i);
        if c <= i {
            None
        } else {
            let colon = spec_find_colon(s, i, c);
            if colon < c && spec_is_host_header_name(s, i, colon) {
                Some(spec_trim(s, colon + 1, c))
            } else if e >= s.len() {
                None
            } else {
                spec_find_host(s, e + 1)
            }
        }
    }
}

#[via_fn]
proof fn spec_find_host_decreases(s: Seq<u8>, i: int) {
    if i < s.len() {
        lemma_find_nl_bounds(s, i);
    }
}

/// Whether the token spells an HTTP/1.x version: it starts with "HTTP/1.".
pub open spec fn spec_version_ok(v: Seq<u8>) -> bool {
    v.len() >= 7 && v.subrange(0, 7) == seq![72u8, 84u8, 84u8, 80u8, 47u8, 49u8, 46u8]
}

/// Whether the token is one of the nine request methods:
/// GET, POST, PUT, DELETE, HEAD, OPTIONS, PATCH, CONNECT, TRACE.
pub open spec fn spec_is_valid_method(m: Seq<u8>) -> bool {
    ||| m == seq![71u8, 69u8, 84u8]
    ||| m == seq![80u8, 79u8, 83u8, 84u8]
    ||| m == seq![80u8, 85u8, 84u8]
    ||| m == seq![68u8, 69u8, 76u8, 69u8, 84u8, 69u8]
    ||| m == seq![72u8, 69u8, 65u8, 68u8]
    ||| m == seq![79u8, 80u8, 84u8, 73u8, 79u8, 78u8, 83u8]
    ||| m == seq![80u8, 65u8, 84u8, 67u8, 72u8]
    ||| m == seq![67u8, 79u8, 78u8, 78u8, 69u8, 67u8, 84u8]
    ||| m == seq![84u8, 82u8, 65u8, 67u8, 69u8]
}

/// The method, path, and Host header bytes of an HTTP/1.x request: at least
/// 16 bytes of valid UTF-8, a request line of at least three tokens whose
/// third starts with "HTTP/1." and whose first is a known method, then
/// headers scanned up to the first empty line.
pub open spec fn spec_extract_http(data: Seq<u8>) -> Option<(Seq<u8>, Seq<u8>, Option<Seq<u8>>)> {
    if data.len() < 16 {
        None
    } else if !valid_utf8(data) {
        None
    } else {
        let c0 = spec_content_end(data, 0);
        let t0s = spec_skip_ws(data, 0, c0);
        let t0e = spec_skip_token(data, t0s, c0);
        let t1s = spec_skip_ws(data, t0e, c0);
        let t1e = spec_skip_token(data, t1s, c0);
        let t2s = spec_skip_ws(data, t1e, c0);
        let t2e = spec_skip_token(data, t2s, c0);
        if t0s >= t0e || t1s >= t1e || t2s >= t2e {
            None
        } else if !spec_version_ok(data.subrange(t2s, t2e)) {
            None
        } else if !spec_is_valid_method(data.subrange(t0s, t0e)) {
            None
        } else {
            let e0 = spec_find_nl(data, 0);
            let host = if e0 < data.len() {
                spec_find_host(data, e0 + 1)
            } else {
                None
            };
            Some((data.subrange(t0s, t0e), data.subrange(t1s, t1e), host))
        }
    }
}

fn is_ws(b: u8) -> (r: bool)
    ensures
        r == spec_is_ws(b),
{
    b == 32 || b == 9 || b == 10 || b == 13 || b == 11 || b == 12
}

fn find_nl(data: &[u8], i: usize) -> (r: usize)
    requires
        i <= data@.len(),
    ensures
        r == spec_find_nl(data@, i as int),
        i <= r <= data@.len(),
{
    let n = data.len();
    let mut j = i;
    while j < n
        invariant
            i <= j <= n,
            n == data@.len(),
            spec_find_nl(data@, i as int) == spec_find_nl(data@, j as int),
        decreases n - j,
    {
        if data[j] == 10 {
            return j;
        }
        j = j + 1;
    }
    j
}

fn skip_ws(data: &[u8], i: usize, end: usize) -> (r: usize)
    requires
        i <= end <= data@.len(),
    ensures
        r == spec_skip_ws(data@, i as int, end as int),
        i <= r <= end,
{
    let mut j = i;
    while j < end && is_ws(data[j])
        invariant
            i <= j <= end,
            end <= data@.len(),
            spec_skip_ws(data@, i as int, end as int) == spec_skip_ws(data@, j as int, end as int),
        decreases end - j,
    {
        j = j + 1;
    }
    j
}

fn skip_token(data: &[u8], i: usize, end: usize) -> (r: usize)
    requires
        i <= end <= data@.len(),
    ensures
        r == spec_skip_token(data@, i as int, end as int),
        i <= r <= end,
{
    let mut j = i;
    while j < end && !is_ws(data[j])
        invariant
            i <= j <= end,
            end <= data@.len(),
            spec_skip_token(data@, i as int, end as int) == spec_skip_token(
                data@,
                j as int,
                end as int,
            ),
        decreases end - j,
    {
        j = j + 1;
    }
    j
}

fn find_colon(data: &[u8], i: usize, end: usize) -> (r: usize)
    requires
        i <= end <= data@.len(),
    ensures
        r == spec_find_colon(data@, i as int, end as int),
        i <= r <= end,
{
    let mut j = i;
    while j < end
        invariant
            i <= j <= end,
            end <= data@.len(),
            spec_find_colon(data@, i as int, end as int) == spec_find_colon(
                data@,
                j as int,
                end as int,
            ),
        decreases end - j,
    {
        if data[j] == 58 {
            return j;
        }
        j = j + 1;
    }
    j
}

fn rskip_ws(data: &[u8], a: usize, b: usize) -> (r: usize)
    requires
        a <= b <= data@.len(),
    ensures
        r == spec_rskip_ws(data@, a as int, b as int),
        a <= r <= b,
{
    let mut j = b;
    while j > a && is_ws(data[j - 1])
        invariant
            a <= j <= b,
            b <= data@.len(),
            spec_rskip_ws(data@, a as int, b as int) == spec_rskip_ws(data@, a as int, j as int),
        decreases j,
    {
        j = j - 1;
    }
    j
}

/// The trimmed subrange of `[a, b)`, as a pair of bounds.
fn trim_range(data: &[u8], a: usize, b: usize) -> (r: (usize, usize))
    requires
        a <= b <= data@.len(),
    ensures
        r.0 <= r.1 <= data@.len(),
        data@.subrange(r.0 as int, r.1 as int) == spec_trim(data@, a as int, b as int),
{
    let x = skip_ws(data, a, b);
    let y = rskip_ws(data, a, b);
    if x >= y {
        proof {
            assert(data@.subrange(x as int, x as int) =~= spec_trim(data@, a as int, b as int));
        }
        (x, x)
    } else {
        (x, y)
    }
}

fn lower(b: u8) -> (r: u8)
    ensures
        r == spec_lower(b),
{
    if 65 <= b && b <= 90 {
        b + 32
    } else {
        b
    }
}

fn is_host_name(data: &[u8], a: usize, b: usize) -> (r: bool)
    requires
        a <= b <= data@.len(),
    ensures
        r == spec_is_host_header_name(data@, a as int, b as int),
{
    let (x, y) = trim_range(data, a, b);
    let ghost t = spec_trim(data@, a as int, b as int);
    let ghost lowered = t.map_values(|c: u8| spec_lower(c));
    if y - x != 4 {
        proof {
            assert(lowered.len() == t.len());
        }
        return false;
    }
    let r = lower(data[x]) == 104 && lower(data[x + 1]) == 111 && lower(data[x + 2]) == 115
        && lower(data[x + 3]) == 116;
    proof {
        assert(lowered.len() == 4);
        assert(lowered[0] == spec_lower(data@[x as int]));
        assert(lowered[1] == spec_lower(data@[x as int + 1]));
        assert(lowered[2] == spec_lower(data@[x as int + 2]));
        assert(lowered[3] == spec_lower(data@[x as int + 3]));
        if r {
            assert(lowered =~= seq![104u8, 111u8, 115u8, 116u8]);
        }
    }
    r
}

fn version_ok(data: &[u8], a: usize, b: usize) -> (r: bool)
    requires
        a <= b <= data@.len(),
    ensures
        r == spec_version_ok(data@.subrange(a as int, b as int)),
{
    let ghost v = data@.subrange(a as int, b as int);
    if b - a < 7 {
        return false;
    }
    let r = data[a] == 72 && data[a + 1] == 84 && data[a + 2] == 84 && data[a + 3] == 80 && data[a
        + 4] == 47 && data[a + 5] == 49 && data[a + 6] == 46;
    proof {
        assert(v.subrange(0, 7).len() == 7);
        assert forall|k: int| 0 <= k < 7 implies v.subrange(0, 7)[k] == data@[a + k] by {}
        if r {
            assert(v.subrange(0, 7) =~= seq![72u8, 84u8, 84u8, 80u8, 47u8, 49u8, 46u8]);
        }
    }
    r
}

fn is_valid_method(data: &[u8], a: usize, b: usize) -> (r: bool)
    requires
        a <= b <= data@.len(),
    ensures
        r == spec_is_valid_method(data@.subrange(a as int, b as int)),
{
    let ghost m = data@.subrange(a as int, b as int);
    let len = b - a;
    proof {
        assert(m.len() == len);
        assert forall|k: int| 0 <= k < m.len() implies m[k] == data@[a + k] by {}
    }
    // GET
    if len == 3 && data[a] == 71 && data[a + 1] == 69 && data[a + 2] == 84 {
        proof {
            assert(m =~= seq![71u8, 69u8, 84u8]);
        }
        return true;
    }
    // POST
    if len == 4 && data[a] == 80 && data[a + 1] == 79 && data[a + 2] == 83 && data[a + 3] == 84 {
        proof {
            assert(m =~= seq![80u8, 79u8, 83u8, 84u8]);
        }
        return true;
    }
    // PUT
    if len == 3 && data[a] == 80 && data[a + 1] == 85 && data[a + 2] == 84 {
        proof {
            assert(m =~= seq![80u8, 85u8, 84u8]);
        }
        return true;
    }
    // DELETE
    if len == 6 && data[a] == 68 && data[a + 1] == 69 && data[a + 2] == 76 && data[a + 3] == 69
        && data[a + 4] == 84 && data[a + 5] == 69 {
        proof {
            assert(m =~= seq![68u8, 69u8, 76u8, 69u8, 84u8, 69u8]);
        }
        return true;
    }
    // HEAD
    if len == 4 && data[a] == 72 && data[a + 1] == 69 && data[a + 2] == 65 && data[a + 3] == 68 {
        proof {
            assert(m =~= seq![72u8, 69u8, 65u8, 68u8]);
        }
        return true;
    }
    // OPTIONS
    if len == 7 && data[a] == 79 && data[a + 1] == 80 && data[a + 2] == 84 && data[a + 3] == 73
        && data[a + 4] == 79 && data[a + 5] == 78 && data[a + 6] == 83 {
        proof {
            assert(m =~= seq![79u8, 80u8, 84u8, 73u8, 79u8, 78u8, 83u8]);
        }
        return true;
    }
    // PATCH
    if len == 5 && data[a] == 80 && data[a + 1] == 65 && data[a + 2] == 84 && data[a + 3] == 67
        && data[a + 4] == 72 {
        proof {
            assert(m =~= seq![80u8, 65u8, 84u8, 67u8, 72u8]);
        }
        return true;
    }
    // CONNECT
    if len == 7 && data[a] == 67 && data[a + 1] == 79 && data[a + 2] == 78 && data[a + 3] == 78
        && data[a + 4] == 69 && data[a + 5] == 67 && data[a + 6] == 84 {
        proof {
            assert(m =~= seq![67u8, 79u8, 78u8, 78u8, 69u8, 67u8, 84u8]);
        }
        return true;
    }
    // TRACE
    if len == 5 && data[a] == 84 && data[a + 1] == 82 && data[a + 2] == 65 && data[a + 3] == 67
        && data[a + 4] == 69 {
        proof {
            assert(m =~= seq![84u8, 82u8, 65u8, 67u8, 69u8]);
        }
        return true;
    }
    false
}

/// Scan the header lines for the Host header; the result bounds its trimmed
/// value.
fn find_host(data: &[u8], start: usize) -> (r: Option<(usize, usize)>)
    requires
        start <= data@.len(),
    ensures
        match spec_find_host(data@, start as int) {
            Some(hb) => r matches Some(p) && p.0 <= p.1 <= data@.len() && data@.subrange(
                p.0 as int,
                p.1 as int,
            ) == hb,
            None => r is None,
        },
{
    let n = data.len();
    let mut i = start;
    loop
        invariant
            i <= n,
            n == data@.len(),
            spec_find_host(data@, start as int) == spec_find_host(data@, i as int),
        decreases n - i,
    {
        if i >= n {
            return None;
        }
        let e = find_nl(data, i);
        let c = if e > i && data[e - 1] == 13 {
            e - 1
        } else {
            e
        };
        if c == i {
            return None;
        }
        let colon = find_colon(data, i, c);
        if colon < c && is_host_name(data, i, colon) {
            let (x, y) = trim_range(data, colon + 1, c);
            return Some((x, y));
        }
        if e >= n {
            return None;
        }
        i = e + 1;
    }
}

/// Extract method, path, and Host header from an HTTP/1.x request buffer;
/// total over all buffers.
pub fn extract_http_info(data: &[u8]) -> (r: Option<HttpRequestInfo>)
    ensures
        match spec_extract_http(data@) {
            Some(parts) => {
                if valid_utf8(parts.0) && valid_utf8(parts.1) && (parts.2 matches Some(hb)
                    ==> valid_utf8(hb)) {
                    r matches Some(info) && info.method@ == decode_utf8(parts.0) && info.path@
                        == decode_utf8(parts.1) && (match parts.2 {
                        Some(hb) => info.host matches Some(hs) && hs@ == decode_utf8(hb),
                        None => info.host is None,
                    })
                } else {
                    r is None
                }
            },
            None => r is None,
        },
{
    let n = data.len();
    if n < 16 {
        return None;
    }
    if utf8_to_string(data).is_none() {
        return None;
    }
    let e0 = find_nl(data, 0);
    let c0 = if e0 > 0 && data[e0 - 1] == 13 {
        e0 - 1
    } else {
        e0
    };
    let t0s = skip_ws(data, 0, c0);
    let t0e = skip_token(data, t0s, c0);
    let t1s = skip_ws(data, t0e, c0);
    let t1e = skip_token(data, t1s, c0);
    let t2s = skip_ws(data, t1e, c0);
    let t2e = skip_token(data, t2s, c0);
    if t0s >= t0e || t1s >= t1e || t2s >= t2e {
        return None;
    }
    if !version_ok(data, t2s, t2e) {
        return None;
    }
    if !is_valid_method(data, t0s, t0e) {
        return None;
    }
    let host: Option<String>;
    if e0 < n {
        match find_host(data, e0 + 1) {
            Some((x, y)) => {
                match utf8_to_string(&data[x..y]) {
                    Some(hs) => {
                        host = Some(hs);
                    },
                    None => {
                        return None;
                    },
                }
            },
            None => {
                host = None;
            },
        }
    } else {
        host = None;
    }
    let method = match utf8_to_string(&data[t0s..t0e]) {
        Some(s) => s,
        None => {
            return None;
        },
    };
    let path = match utf8_to_string(&data[t1s..t1e]) {
        Some(s) => s,
        None => {
            return None;
        },
    };
    Some(HttpRequestInfo { method, path, host })
}

} // verus!
