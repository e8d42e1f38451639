//! Log-line formatting: a timestamp in brackets, a direction word, and the
//! target as `host:port`.

use vstd::prelude::*;

verus! {

use vstd::string::{StringExecFns, StrSliceExecFns};
use vstd::utf8::decode_utf8;
use crate::text::{spec_dec_bytes, dec_string_u16};

/// Relies on chrono::Local::now and its "%H:%M:%S" formatter: the local wall
/// clock rendered as three zero-padded two-digit fields with colons between,
/// eight characters in all.
#[verifier::external_body]
fn local_time_hms() -> (r: String)
    ensures
        r@.len() == 8,
{
    chrono::Local::now().format("%H:%M:%S").to_string()
}

/// The shape of a log line, given the timestamp text.
pub open spec fn spec_log_line(
    ts: Seq<char>,
    direction: Seq<char>,
    host: Seq<char>,
    port: u16,
) -> Seq<char> {
    "["@ + ts + "] "@ + direction + " "@ + host + ":"@ + decode_utf8(
        spec_dec_bytes(port as int),
    )
}

/// Format a log message: the current time of day in brackets, then the
/// direction word and the target.  The timestamp is the only part taken
/// from the clock; everything around it is pinned.
pub fn format_log(direction: &str, host: &str, port: u16) -> (r: String)
    ensures
        exists|ts: Seq<char>|
            ts.len() == 8 && r@ == #[trigger] spec_log_line(ts, direction@, host@, port),
{
    let ts = local_time_hms();
    let mut s = String::from_str("[");
    s.append(ts.as_str());
    s.append("] ");
    s.append(direction);
    s.append(" ");
    s.append(host);
    s.append(":");
    let pd = dec_string_u16(port);
    s.append(pd.as_str());
    proof {
        assert(s@ =~= spec_log_line(ts@, direction@, host@, port));
    }
    s
}

} // verus!
