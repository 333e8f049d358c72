//! Transit relay address parsing and the byte-accounting rules of the
//! streaming send and receive loops.

use vstd::prelude::*;
use crate::error::CoreError;
use crate::text::{
    decimal, digits_in_base, u128_in_base,
    chars_of, find_last, join2, join3, last_index_of, lemma_last_index_of_bounds,
    parse_unsigned, parse_unsigned_at, seq_starts_with, slice_chars, starts_with_at, string_of,
    trim_ws, trim_ws_bounds,
};

verus! {

pub open spec fn bad_scheme_message(scheme: Seq<char>) -> Seq<char> {
    "transit relay 不应带 "@ + scheme + " 前缀，应为 host:port 形式"@
}

/// Host and port once the text after the separator is known.
pub open spec fn finish_host_port(host: Seq<char>, port_str: Seq<char>) -> Result<(Seq<char>, u16), Seq<char>> {
    match parse_unsigned(port_str, 65535) {
        None => Err("transit relay 端口无效: "@ + port_str),
        Some(p) => if host.len() == 0 {
            Err("transit relay host 为空"@)
        } else {
            Ok((host, p as u16))
        },
    }
}

/// `raw` with surrounding whitespace and one optional `tcp://` or `tcp:`
/// prefix removed.
pub open spec fn relay_body(raw: Seq<char>) -> Seq<char> {
    let t = trim_ws(raw);
    if seq_starts_with(t, "tcp://"@) {
        t.skip("tcp://"@.len() as int)
    } else if seq_starts_with(t, "tcp:"@) {
        t.skip("tcp:"@.len() as int)
    } else {
        t
    }
}

/// What `parse_transit_relay` gives for `raw`: the host and port, or the
/// message of the error.
pub open spec fn spec_parse_transit_relay(raw: Seq<char>) -> Result<(Seq<char>, u16), Seq<char>> {
    let t = trim_ws(raw);
    if t.len() == 0 {
        Err("transit relay 为空"@)
    } else if seq_starts_with(t, "ws://"@) {
        Err(bad_scheme_message("ws://"@))
    } else if seq_starts_with(t, "wss://"@) {
        Err(bad_scheme_message("wss://"@))
    } else if seq_starts_with(t, "http://"@) {
        Err(bad_scheme_message("http://"@))
    } else if seq_starts_with(t, "https://"@) {
        Err(bad_scheme_message("https://"@))
    } else {
        let s = relay_body(raw);
        if s.len() > 0 && s[0] == '[' {
            let rest = s.drop_first();
            let i = last_index_of(rest, ']');
            if i < 0 {
                Err("transit relay IPv6 缺少右括号: "@ + raw)
            } else {
                let tail = rest.skip(i + 1);
                if tail.len() > 0 && tail[0] == ':' {
                    finish_host_port(rest.take(i), tail.drop_first())
                } else {
                    Err("transit relay IPv6 缺少端口: "@ + raw)
                }
            }
        } else {
            let i = last_index_of(s, ':');
            if i < 0 {
                Err("transit relay 格式错误 (应为 host:port): "@ + raw)
            } else {
                finish_host_port(s.take(i), s.skip(i + 1))
            }
        }
    }
}

/// The result of `parse_transit_relay` as plain values.
pub open spec fn relay_result_view(r: Result<(String, u16), CoreError>) -> Option<Result<(Seq<char>, u16), Seq<char>>> {
    match r {
        Ok((h, p)) => Some(Ok((h@, p))),
        Err(CoreError::Other(m)) => Some(Err(m@)),
        Err(_) => None,
    }
}

fn relay_error(m: String) -> (r: Result<(String, u16), CoreError>)
    ensures
        relay_result_view(r) == Some(Err::<(Seq<char>, u16), Seq<char>>(m@)),
{
    Err(CoreError::Other(m))
}

fn finish(t: &Vec<char>, h0: usize, h1: usize, p0: usize) -> (r: Result<(String, u16), CoreError>)
    requires
        h0 <= h1 <= p0 <= t@.len(),
    ensures
        relay_result_view(r) == Some(
            finish_host_port(t@.subrange(h0 as int, h1 as int), t@.subrange(p0 as int, t@.len() as int)),
        ),
{
    let port = parse_unsigned_at(t, p0, t.len(), 65535);
    match port {
        None => {
            let ps = string_of(&slice_chars(t, p0, t.len()));
            relay_error(join2("transit relay 端口无效: ", ps.as_str()))
        },
        Some(p) => {
            if h0 == h1 {
                relay_error("transit relay host 为空".to_owned())
            } else {
                let host = string_of(&slice_chars(t, h0, h1));
                let pv: u16 = p as u16;
                Ok((host, pv))
            }
        },
    }
}

/// Parse `[tcp[://]]host:port`.
///
/// Accepts `host:port`, `tcp:host:port`, `tcp://host:port` and
/// `[v6addr]:port`; surrounding whitespace is ignored. Rejects an empty
/// value, the mailbox schemes `ws://`, `wss://`, `http://`, `https://`, a
/// missing separator or port, a port outside `u16`, and an empty host.
pub fn parse_transit_relay(raw: &str) -> (r: Result<(String, u16), CoreError>)
    ensures
        relay_result_view(r) == Some(spec_parse_transit_relay(raw@)),
{
    let v = chars_of(raw);
    let (a, b) = trim_ws_bounds(&v);
    let t = slice_chars(&v, a, b);
    let tl = t.len();
    assert(t@.subrange(0, tl as int) =~= t@);
    if tl == 0 {
        return relay_error("transit relay 为空".to_owned());
    }
    if starts_with_at(&t, 0, "ws://") {
        return relay_error(join3("transit relay 不应带 ", "ws://", " 前缀，应为 host:port 形式"));
    }
    if starts_with_at(&t, 0, "wss://") {
        return relay_error(join3("transit relay 不应带 ", "wss://", " 前缀，应为 host:port 形式"));
    }
    if starts_with_at(&t, 0, "http://") {
        return relay_error(join3("transit relay 不应带 ", "http://", " 前缀，应为 host:port 形式"));
    }
    if starts_with_at(&t, 0, "https://") {
        return relay_error(join3("transit relay 不应带 ", "https://", " 前缀，应为 host:port 形式"));
    }
    proof {
        reveal_strlit("tcp://");
        reveal_strlit("tcp:");
    }
    let off: usize = if starts_with_at(&t, 0, "tcp://") {
        6
    } else if starts_with_at(&t, 0, "tcp:") {
        4
    } else {
        0
    };
    let ghost s = relay_body(raw@);
    assert(s =~= t@.subrange(off as int, tl as int));
    if off < tl && t[off] == '[' {
        let ghost rest = s.drop_first();
        assert(rest =~= t@.subrange(off + 1, tl as int));
        match find_last(&t, off + 1, tl, ']') {
            None => {
                return relay_error(join2("transit relay IPv6 缺少右括号: ", raw));
            },
            Some(i) => {
                let ghost ri = i - off - 1;
                let ghost tail = rest.skip(ri + 1);
                assert(tail =~= t@.subrange(i + 1, tl as int));
                if i + 1 < tl && t[i + 1] == ':' {
                    assert(rest.take(ri) =~= t@.subrange(off + 1, i as int));
                    assert(tail.drop_first() =~= t@.subrange(i + 2, tl as int));
                    return finish(&t, off + 1, i, i + 2);
                } else {
                    return relay_error(join2("transit relay IPv6 缺少端口: ", raw));
                }
            },
        }
    } else {
        match find_last(&t, off, tl, ':') {
            None => {
                return relay_error(join2("transit relay 格式错误 (应为 host:port): ", raw));
            },
            Some(i) => {
                assert(s.take(i - off) =~= t@.subrange(off as int, i as int));
                assert(s.skip(i - off + 1) =~= t@.subrange(i + 1, tl as int));
                return finish(&t, off, i, i + 1);
            },
        }
    }
}

#[verifier::external_type_specification]
#[verifier::external_body]
pub struct ExTransitConnector(magic_wormhole::transit::TransitConnector);

/// The connection hints a connector advertises (a copy of
/// `TransitConnector::our_hints`). Nothing is stated of the value.
#[verifier::external_body]
pub fn our_hints(connector: &magic_wormhole::transit::TransitConnector) -> magic_wormhole::transit::Hints {
    (**connector.our_hints()).clone()
}

/// The abilities a connector advertises (`TransitConnector::our_abilities`).
/// Nothing is stated of the value.
#[verifier::external_body]
pub fn our_abilities(connector: &magic_wormhole::transit::TransitConnector) -> magic_wormhole::transit::Abilities {
    *connector.our_abilities()
}

/// The purpose string of the transit key: the application id followed by
/// `/transit-key`.
pub fn transit_key_purpose(app_id: &str) -> (r: String)
    ensures
        r@ == app_id@ + "/transit-key"@,
{
    join2(app_id, "/transit-key")
}

/// Least time between two progress reports of a running transfer.
pub const PROGRESS_INTERVAL_MS: u128 = 100;

/// Whether a transfer reports progress after `elapsed_ms` since its last
/// report.
pub fn progress_due(elapsed_ms: u128) -> (r: bool)
    ensures
        r == (elapsed_ms >= PROGRESS_INTERVAL_MS),
{
    elapsed_ms >= PROGRESS_INTERVAL_MS
}

/// The error of a transfer the local user cancelled.
pub fn cancelled_error() -> (e: CoreError)
    ensures
        e matches CoreError::Other(m) && m@ == "cancelled by user"@,
{
    CoreError::Other("cancelled by user".to_owned())
}

/// Byte accounting of streaming a local file to the peer.
pub struct SendProgress {
    sent: u64,
    expected: u64,
}

impl SendProgress {
    pub closed spec fn spec_sent(&self) -> u64 {
        self.sent
    }

    pub closed spec fn spec_expected(&self) -> u64 {
        self.expected
    }

    /// Nothing sent yet of a file declared as `expected` bytes.
    pub fn new(expected: u64) -> (r: SendProgress)
        ensures
            r.spec_sent() == 0,
            r.spec_expected() == expected,
    {
        SendProgress { sent: 0, expected }
    }

    /// Bytes streamed so far.
    pub fn sent(&self) -> (r: u64)
        ensures
            r == self.spec_sent(),
    {
        self.sent
    }

    /// Counts `n` more bytes sent.
    pub fn record(&mut self, n: u64)
        requires
            old(self).spec_sent() + n <= u64::MAX,
        ensures
            final(self).spec_sent() == old(self).spec_sent() + n,
            final(self).spec_expected() == old(self).spec_expected(),
    {
        self.sent = self.sent + n;
    }

    /// After the file is exhausted: the stream must have carried exactly
    /// the declared size.
    pub fn finish(&self) -> (r: Result<(), CoreError>)
        ensures
            r is Ok <==> self.spec_sent() == self.spec_expected(),
            r matches Err(e) ==> e matches CoreError::Protocol(m) && m@ == "size mismatch: streamed "@
                + digits_in_base(self.spec_sent() as nat, 10) + ", declared "@ + digits_in_base(
                self.spec_expected() as nat,
                10,
            ),
    {
        if self.sent != self.expected {
            let a = decimal(self.sent);
            let b = decimal(self.expected);
            let head = join3("size mismatch: streamed ", a.as_str(), ", declared ");
            return Err(CoreError::Protocol(join2(head.as_str(), b.as_str())));
        }
        Ok(())
    }
}

/// What to do with one record received from the peer.
pub enum RecordStep {
    /// Write the whole record.
    Write(u64),
    /// The record goes past the declared size: write only its first
    /// `keep` bytes, then fail with `error`.
    Overshoot { keep: u64, error: CoreError },
}

/// Byte accounting of receiving a file of a declared size: what is
/// written never goes past the declared size.
pub struct RecvProgress {
    got: u64,
    expected: u64,
}

impl RecvProgress {
    pub closed spec fn spec_got(&self) -> u64 {
        self.got
    }

    pub closed spec fn spec_expected(&self) -> u64 {
        self.expected
    }

    /// The bytes counted never exceed the declared size.
    pub closed spec fn wf(&self) -> bool {
        self.got <= self.expected
    }

    /// Nothing received yet of a file declared as `expected` bytes.
    pub fn new(expected: u64) -> (r: RecvProgress)
        ensures
            r.wf(),
            r.spec_got() == 0,
            r.spec_expected() == expected,
    {
        RecvProgress { got: 0, expected }
    }

    /// Bytes written so far.
    pub fn got(&self) -> (r: u64)
        ensures
            r == self.spec_got(),
    {
        self.got
    }

    /// Whether the declared size has been received.
    pub fn complete(&self) -> (r: bool)
        ensures
            r == (self.spec_got() >= self.spec_expected()),
    {
        self.got >= self.expected
    }

    /// Accounts for a received record of `len` bytes: all of it when it
    /// fits in what is left of the declared size, else only what fits,
    /// with an overshoot error.
    pub fn accept_record(&mut self, len: u64) -> (r: RecordStep)
        requires
            old(self).wf(),
            old(self).spec_got() < old(self).spec_expected(),
        ensures
            final(self).wf(),
            final(self).spec_expected() == old(self).spec_expected(),
            len <= old(self).spec_expected() - old(self).spec_got() ==> (r == RecordStep::Write(len)
                && final(self).spec_got() == old(self).spec_got() + len),
            len > old(self).spec_expected() - old(self).spec_got() ==> ({
                &&& final(self).spec_got() == old(self).spec_expected()
                &&& r matches RecordStep::Overshoot { keep, error: CoreError::Protocol(m) }
                &&& keep == old(self).spec_expected() - old(self).spec_got()
                &&& m@ == "sender overshot: declared "@ + digits_in_base(
                    old(self).spec_expected() as nat,
                    10,
                ) + ", wrote at least "@ + digits_in_base((old(self).spec_got() + len) as nat, 10)
            }),
    {
        let remaining = self.expected - self.got;
        if len > remaining {
            let total: u128 = self.got as u128 + len as u128;
            self.got = self.expected;
            let a = decimal(self.expected);
            let b = u128_in_base(total, 10);
            let head = join3("sender overshot: declared ", a.as_str(), ", wrote at least ");
            return RecordStep::Overshoot {
                keep: remaining,
                error: CoreError::Protocol(join2(head.as_str(), b.as_str())),
            };
        }
        self.got = self.got + len;
        RecordStep::Write(len)
    }
}

} // verus!
