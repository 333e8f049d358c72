//! Properties of the library as a whole, proved over the specifications
//! that the functions' contracts use.

use vstd::prelude::*;
use crate::storage::{
    is_forbidden_char, is_path_sep, last_segment, name_is_reserved, replace_forbidden,
    sanitized_base, spec_sanitize_filename, stem_of, untitled, MAX_FILENAME_CHARS,
};
use crate::bridge::{escape_char, escaped};
use crate::config::{effective_relay, DEFAULT_MAILBOX_RELAY, DEFAULT_TRANSIT_RELAY};
use crate::protocol::AppMsgView;
use crate::session::{
    cancel_model, drop_in, drop_out, in_ids, in_index, index_of, out_ids, out_index, peer_model,
    reject_model, ActionView, IncomingView, OutgoingView, TransfersView,
};
use crate::transfer::{finish_host_port, relay_body, spec_parse_transit_relay};
use crate::text::{
    all_digits, decimal_value, digit_char, digits_in_base, is_ascii_digit, is_unicode_whitespace,
    last_index_of, lemma_last_index_of, parse_unsigned, seq_starts_with, trim_ws,
    ascii_upper, text_greater, trim_by, trim_end_by, trim_start_by};
use crate::updater::{components_greater, parse_version, spec_is_newer_version, strip_v};
use crate::diag::{hex_of, hex_pair};
use crate::error::CoreError;

verus! {

/// A character a sanitised name may hold: no path separator, control
/// character or character Windows forbids.
pub open spec fn is_safe_char(c: char) -> bool {
    !is_path_sep(c) && !is_forbidden_char(c)
}

proof fn lemma_last_segment_no_sep(s: Seq<char>)
    ensures
        forall|k: int| 0 <= k < last_segment(s).len() ==> !is_path_sep(#[trigger] last_segment(s)[k]),
    decreases s.len(),
{
    if s.len() > 0 && !is_path_sep(s.last()) {
        let t = s.drop_last();
        lemma_last_segment_no_sep(t);
        let r = last_segment(s);
        assert(r == last_segment(t).push(s.last()));
        assert forall|k: int| 0 <= k < r.len() implies !is_path_sep(#[trigger] r[k]) by {
            if k < r.len() - 1 {
                assert(r[k] == last_segment(t)[k]);
            }
        }
    } else if s.len() > 0 {
        assert(last_segment(s) =~= Seq::<char>::empty());
    }
}

proof fn lemma_trim_start_keeps(s: Seq<char>, p: spec_fn(char) -> bool, q: spec_fn(char) -> bool)
    requires
        forall|k: int| 0 <= k < s.len() ==> q(#[trigger] s[k]),
    ensures
        forall|k: int| 0 <= k < trim_start_by(s, p).len() ==> q(#[trigger] trim_start_by(s, p)[k]),
    decreases s.len(),
{
    if s.len() > 0 && p(s[0]) {
        let t = s.drop_first();
        assert forall|k: int| 0 <= k < t.len() implies q(#[trigger] t[k]) by {
            assert(t[k] == s[k + 1]);
        }
        lemma_trim_start_keeps(t, p, q);
        assert(trim_start_by(s, p) == trim_start_by(t, p));
    } else {
        assert(trim_start_by(s, p) == s);
    }
}

proof fn lemma_trim_end_keeps(s: Seq<char>, p: spec_fn(char) -> bool, q: spec_fn(char) -> bool)
    requires
        forall|k: int| 0 <= k < s.len() ==> q(#[trigger] s[k]),
    ensures
        forall|k: int| 0 <= k < trim_end_by(s, p).len() ==> q(#[trigger] trim_end_by(s, p)[k]),
    decreases s.len(),
{
    if s.len() > 0 && p(s.last()) {
        let t = s.drop_last();
        assert forall|k: int| 0 <= k < t.len() implies q(#[trigger] t[k]) by {
            assert(t[k] == s[k]);
        }
        lemma_trim_end_keeps(t, p, q);
        assert(trim_end_by(s, p) == trim_end_by(t, p));
    } else {
        assert(trim_end_by(s, p) == s);
    }
}

proof fn lemma_base_is_safe(s: Seq<char>)
    ensures
        sanitized_base(s).len() > 0,
        forall|k: int| 0 <= k < sanitized_base(s).len() ==> is_safe_char(#[trigger] sanitized_base(s)[k]),
{
    let seg = last_segment(s);
    lemma_last_segment_no_sep(s);
    let m = seg.map_values(|c: char| replace_forbidden(c));
    assert forall|k: int| 0 <= k < m.len() implies is_safe_char(#[trigger] m[k]) by {
        assert(m[k] == replace_forbidden(seg[k]));
    }
    let q = |c: char| is_safe_char(c);
    let p = |c: char| crate::storage::is_dot_or_space(c);
    lemma_trim_start_keeps(m, p, q);
    lemma_trim_end_keeps(trim_start_by(m, p), p, q);
    let u = untitled();
    assert forall|k: int| 0 <= k < u.len() implies is_safe_char(#[trigger] u[k]) by {}
}

/// Sanitising a peer's filename always gives a non-empty name of at most
/// 200 characters with no path separator (so it cannot leave the download
/// directory), no control character and none of `< > : " | ? *`.
pub proof fn law_sanitized_name_is_safe(s: Seq<char>)
    ensures
        spec_sanitize_filename(s).len() > 0,
        spec_sanitize_filename(s).len() <= MAX_FILENAME_CHARS,
        forall|k: int| 0 <= k < spec_sanitize_filename(s).len() ==> is_safe_char(
            #[trigger] spec_sanitize_filename(s)[k],
        ),
{
    lemma_base_is_safe(s);
    let b = sanitized_base(s);
    let r = if name_is_reserved(b) {
        seq!['_'] + b
    } else {
        b
    };
    assert forall|k: int| 0 <= k < r.len() implies is_safe_char(#[trigger] r[k]) by {
        if name_is_reserved(b) && k > 0 {
            assert(r[k] == b[k - 1]);
        }
    }
}

/// When no truncation is needed (the sanitised name, with its `_`
/// prefix if any, is at most 200 characters), the result is never a
/// Windows device name.
pub proof fn law_sanitized_name_not_reserved(s: Seq<char>)
    requires
        sanitized_base(s).len() + 1 <= MAX_FILENAME_CHARS,
    ensures
        !name_is_reserved(spec_sanitize_filename(s)),
{
    let b = sanitized_base(s);
    if name_is_reserved(b) {
        let r = seq!['_'] + b;
        assert(r =~= spec_sanitize_filename(s));
        assert(r[0] == '_');
        assert(stem_of(r) =~= seq!['_'] + stem_of(r.drop_first()));
        let u = stem_of(r).map_values(|c: char| ascii_upper(c));
        assert(u[0] == '_');
        assert(u != seq!['C', 'O', 'N']);
        assert(u != seq!['P', 'R', 'N']);
        assert(u != seq!['A', 'U', 'X']);
        assert(u != seq!['N', 'U', 'L']);
        if u.len() > 3 {
            assert(u.take(3)[0] == '_');
            assert(u.take(3) != seq!['C', 'O', 'M']);
            assert(u.take(3) != seq!['L', 'P', 'T']);
        }
    }
}

proof fn lemma_trim_start_first(s: Seq<char>, p: spec_fn(char) -> bool)
    ensures
        trim_start_by(s, p).len() > 0 ==> !p(trim_start_by(s, p)[0]),
    decreases s.len(),
{
    if s.len() > 0 && p(s[0]) {
        lemma_trim_start_first(s.drop_first(), p);
    }
}

proof fn lemma_trim_end_ends(s: Seq<char>, p: spec_fn(char) -> bool)
    ensures
        trim_end_by(s, p).len() > 0 ==> !p(trim_end_by(s, p).last()) && trim_end_by(s, p)[0]
            == s[0],
    decreases s.len(),
{
    if s.len() > 0 && p(s.last()) {
        let t = s.drop_last();
        lemma_trim_end_ends(t, p);
        if trim_end_by(t, p).len() > 0 {
            assert(t[0] == s[0]);
        }
    }
}

proof fn lemma_last_segment_whole(s: Seq<char>)
    requires
        forall|k: int| 0 <= k < s.len() ==> !is_path_sep(#[trigger] s[k]),
    ensures
        last_segment(s) == s,
    decreases s.len(),
{
    if s.len() > 0 {
        let t = s.drop_last();
        assert forall|k: int| 0 <= k < t.len() implies !is_path_sep(#[trigger] t[k]) by {
            assert(t[k] == s[k]);
        }
        lemma_last_segment_whole(t);
        assert(t.push(s.last()) =~= s);
    }
}

/// A sanitised base name neither starts nor ends with a dot or a space.
proof fn lemma_base_ends(s: Seq<char>)
    ensures
        !crate::storage::is_dot_or_space(sanitized_base(s)[0]),
        !crate::storage::is_dot_or_space(sanitized_base(s).last()),
{
    let p = |c: char| crate::storage::is_dot_or_space(c);
    let m = last_segment(s).map_values(|c: char| replace_forbidden(c));
    let a = trim_start_by(m, p);
    lemma_trim_start_first(m, p);
    lemma_trim_end_ends(a, p);
    lemma_base_is_safe(s);
}

/// Sanitising a name that sanitising produced, short enough that nothing
/// was cut off, changes nothing.
pub proof fn law_sanitize_is_idempotent(s: Seq<char>)
    requires
        spec_sanitize_filename(s).len() < MAX_FILENAME_CHARS,
    ensures
        spec_sanitize_filename(spec_sanitize_filename(s)) == spec_sanitize_filename(s),
{
    let x = spec_sanitize_filename(s);
    let b = sanitized_base(s);
    law_sanitized_name_is_safe(s);
    lemma_base_is_safe(s);
    lemma_base_ends(s);
    let r = if name_is_reserved(b) {
        seq!['_'] + b
    } else {
        b
    };
    assert(x == r);
    assert(b.len() + 1 <= MAX_FILENAME_CHARS);
    law_sanitized_name_not_reserved(s);
    // x holds no separator or forbidden character and has no dot or space
    // at either end, so the base of x is x.
    let p = |c: char| crate::storage::is_dot_or_space(c);
    assert(!p(x[0])) by {
        if name_is_reserved(b) {
            assert(x[0] == '_');
        }
    }
    assert(x.last() == b.last());
    lemma_last_segment_whole(x);
    let m = last_segment(x).map_values(|c: char| replace_forbidden(c));
    assert(m =~= x) by {
        assert forall|k: int| 0 <= k < x.len() implies m[k] == x[k] by {
            assert(is_safe_char(x[k]));
        }
    }
    lemma_trim_start_len(x, p);
    lemma_trim_end_len(x, p);
    assert(trim_by(x, p) == x);
    assert(sanitized_base(x) == x);
}

proof fn lemma_components_irreflexive(a: Seq<nat>)
    ensures
        !components_greater(a, a),
    decreases a.len(),
{
    if a.len() > 0 {
        lemma_components_irreflexive(a.drop_first());
    }
}

proof fn lemma_components_asymmetric(a: Seq<nat>, b: Seq<nat>)
    ensures
        components_greater(a, b) ==> !components_greater(b, a),
    decreases a.len(),
{
    if a.len() > 0 && b.len() > 0 && a[0] == b[0] {
        lemma_components_asymmetric(a.drop_first(), b.drop_first());
    }
}

proof fn lemma_text_irreflexive(a: Seq<char>)
    ensures
        !text_greater(a, a),
    decreases a.len(),
{
    if a.len() > 0 {
        lemma_text_irreflexive(a.drop_first());
    }
}

proof fn lemma_text_asymmetric(a: Seq<char>, b: Seq<char>)
    ensures
        text_greater(a, b) ==> !text_greater(b, a),
    decreases a.len(),
{
    if a.len() > 0 && b.len() > 0 && a[0] == b[0] {
        lemma_text_asymmetric(a.drop_first(), b.drop_first());
    }
}

/// A version is never newer than itself, so an up-to-date build is never
/// offered its own version.
pub proof fn law_version_not_newer_than_itself(v: Seq<char>)
    ensures
        !spec_is_newer_version(v, v),
{
    let r = strip_v(v);
    match parse_version(r) {
        Some(x) => lemma_components_irreflexive(x),
        None => lemma_text_irreflexive(r),
    }
}

/// "Newer" is asymmetric: of two versions at most one is newer than the
/// other.
pub proof fn law_version_newer_is_asymmetric(a: Seq<char>, b: Seq<char>)
    ensures
        spec_is_newer_version(a, b) ==> !spec_is_newer_version(b, a),
{
    let x = strip_v(a);
    let y = strip_v(b);
    match (parse_version(x), parse_version(y)) {
        (Some(p), Some(q)) => lemma_components_asymmetric(p, q),
        _ => lemma_text_asymmetric(x, y),
    }
}

/// A leading `v` makes no difference on either side.
pub proof fn law_version_ignores_v_prefix(a: Seq<char>, b: Seq<char>)
    ensures
        spec_is_newer_version(seq!['v'] + a, b) == spec_is_newer_version(a, b),
        spec_is_newer_version(a, seq!['v'] + b) == spec_is_newer_version(a, b),
{
    let va = seq!['v'] + a;
    let vb = seq!['v'] + b;
    assert(va.drop_first() =~= a);
    assert(vb.drop_first() =~= b);
    assert(strip_v(va) == strip_v(a));
    assert(strip_v(vb) == strip_v(b));
}

proof fn lemma_decimal_digits(n: nat)
    ensures
        digits_in_base(n, 10).len() > 0,
        all_digits(digits_in_base(n, 10)),
        decimal_value(digits_in_base(n, 10)) == n,
    decreases n,
{
    let d = digits_in_base(n, 10);
    if n >= 10 {
        lemma_decimal_digits(n / 10);
        let d0 = digits_in_base(n / 10, 10);
        let c = digit_char(n % 10);
        assert(d == d0.push(c));
        assert(d.drop_last() =~= d0);
        assert((c as u32) - ('0' as u32) == n % 10);
        assert(10 * (n / 10) + n % 10 == n) by (nonlinear_arith);
        assert(d.last() == c);
        assert(decimal_value(d) == 10 * decimal_value(d0) + ((c as u32) - ('0' as u32)) as nat);
        assert forall|k: int| 0 <= k < d.len() implies is_ascii_digit(#[trigger] d[k]) by {
            if k < d0.len() {
                assert(d[k] == d0[k]);
            }
        }
    } else {
        let c = digit_char(n);
        assert(d == seq![c]);
        assert(d.drop_last() =~= Seq::<char>::empty());
        assert((c as u32) - ('0' as u32) == n);
        assert(decimal_value(Seq::<char>::empty()) == 0);
        assert(d.last() == c);
        assert(decimal_value(d) == 10 * decimal_value(d.drop_last()) + ((c as u32) - ('0' as u32)) as nat);
    }
}

proof fn lemma_trim_start_len(s: Seq<char>, p: spec_fn(char) -> bool)
    ensures
        trim_start_by(s, p).len() <= s.len(),
        s.len() > 0 && p(s[0]) ==> trim_start_by(s, p).len() < s.len(),
        s.len() > 0 && !p(s[0]) ==> trim_start_by(s, p) == s,
    decreases s.len(),
{
    if s.len() > 0 && p(s[0]) {
        lemma_trim_start_len(s.drop_first(), p);
    }
}

proof fn lemma_trim_end_len(s: Seq<char>, p: spec_fn(char) -> bool)
    ensures
        trim_end_by(s, p).len() <= s.len(),
        s.len() > 0 && p(s.last()) ==> trim_end_by(s, p).len() < s.len(),
        s.len() > 0 && !p(s.last()) ==> trim_end_by(s, p) == s,
    decreases s.len(),
{
    if s.len() > 0 && p(s.last()) {
        lemma_trim_end_len(s.drop_last(), p);
    }
}

/// Text with nothing to trim starts and ends with a non-space.
proof fn lemma_trimmed_ends(h: Seq<char>)
    requires
        h.len() > 0,
        trim_ws(h) == h,
    ensures
        !is_unicode_whitespace(h[0]),
        !is_unicode_whitespace(h.last()),
{
    let ws = |c: char| is_unicode_whitespace(c);
    lemma_trim_start_len(h, ws);
    let a = trim_start_by(h, ws);
    lemma_trim_end_len(a, ws);
    if ws(h[0]) {
        assert(trim_ws(h).len() < h.len());
    } else {
        assert(a == h);
        lemma_trim_end_len(h, ws);
    }
}

/// `b` is `host:digits` with the one `:` at `n`.
spec fn host_port_shape(b: Seq<char>, n: int) -> bool {
    &&& 0 < n < b.len() - 1
    &&& forall|k: int|
        0 <= k < b.len() ==> (#[trigger] b[k] == ':' <==> k == n) && (k > n ==> is_ascii_digit(b[k]))
}

proof fn lemma_host_port_shape(h: Seq<char>, d: Seq<char>)
    requires
        h.len() > 0,
        d.len() > 0,
        !h.contains(':'),
        all_digits(d),
    ensures
        host_port_shape(h + seq![':'] + d, h.len() as int),
{
    let b = h + seq![':'] + d;
    let n = h.len() as int;
    assert forall|k: int| 0 <= k < b.len() implies (#[trigger] b[k] == ':' <==> k == n) && (k > n
        ==> is_ascii_digit(b[k])) by {
        if k < n {
            assert(b[k] == h[k]);
            if h[k] == ':' {
                assert(h.contains(':'));
            }
        } else if k > n {
            assert(b[k] == d[k - n - 1]);
            assert(is_ascii_digit(d[k - n - 1]));
        }
    }
}

/// Without a prefix, `host:port` starts with no scheme (the host being
/// neither `tcp` nor holding a `:`).
proof fn lemma_no_scheme(b: Seq<char>, n: int)
    requires
        host_port_shape(b, n),
        b.take(n) != "tcp"@,
    ensures
        !seq_starts_with(b, "ws://"@),
        !seq_starts_with(b, "wss://"@),
        !seq_starts_with(b, "http://"@),
        !seq_starts_with(b, "https://"@),
        !seq_starts_with(b, "tcp://"@),
        !seq_starts_with(b, "tcp:"@),
{
    reveal_strlit("ws://");
    reveal_strlit("wss://");
    reveal_strlit("http://");
    reveal_strlit("https://");
    reveal_strlit("tcp://");
    reveal_strlit("tcp:");
    reveal_strlit("tcp");
    if seq_starts_with(b, "ws://"@) {
        assert(b.take(5)[2] == b[2]);
        assert(b.take(5)[3] == b[3]);
    }
    if seq_starts_with(b, "wss://"@) {
        assert(b.take(6)[3] == b[3]);
        assert(b.take(6)[4] == b[4]);
    }
    if seq_starts_with(b, "http://"@) {
        assert(b.take(7)[4] == b[4]);
        assert(b.take(7)[5] == b[5]);
    }
    if seq_starts_with(b, "https://"@) {
        assert(b.take(8)[5] == b[5]);
        assert(b.take(8)[6] == b[6]);
    }
    if seq_starts_with(b, "tcp://"@) {
        assert(b.take(6)[3] == b[3]);
        assert(b.take(6)[4] == b[4]);
    }
    if seq_starts_with(b, "tcp:"@) {
        assert(b.take(4)[3] == b[3]);
        assert(n == 3);
        assert(b.take(3) =~= "tcp"@) by {
            assert(b.take(3)[0] == b.take(4)[0]);
            assert(b.take(3)[1] == b.take(4)[1]);
            assert(b.take(3)[2] == b.take(4)[2]);
        }
    }
}

/// With a `tcp:` or `tcp://` prefix, no refused scheme matches and the
/// body is what follows the prefix (the host not starting with `//`).
proof fn lemma_prefixed_body(pfx: Seq<char>, b: Seq<char>, n: int)
    requires
        pfx == "tcp:"@ || pfx == "tcp://"@,
        host_port_shape(b, n),
        !seq_starts_with(b, "//"@),
    ensures
        !seq_starts_with(pfx + b, "ws://"@),
        !seq_starts_with(pfx + b, "wss://"@),
        !seq_starts_with(pfx + b, "http://"@),
        !seq_starts_with(pfx + b, "https://"@),
        pfx == "tcp://"@ ==> seq_starts_with(pfx + b, "tcp://"@) && (pfx + b).skip(6) == b,
        pfx == "tcp:"@ ==> !seq_starts_with(pfx + b, "tcp://"@) && seq_starts_with(pfx + b, "tcp:"@)
            && (pfx + b).skip(4) == b,
{
    reveal_strlit("ws://");
    reveal_strlit("wss://");
    reveal_strlit("http://");
    reveal_strlit("https://");
    reveal_strlit("tcp://");
    reveal_strlit("tcp:");
    reveal_strlit("//");
    let t = pfx + b;
    assert(t[0] == 't');
    if seq_starts_with(t, "ws://"@) {
        assert(t.take(5)[0] == t[0]);
    }
    if seq_starts_with(t, "wss://"@) {
        assert(t.take(6)[0] == t[0]);
    }
    if seq_starts_with(t, "http://"@) {
        assert(t.take(7)[0] == t[0]);
    }
    if seq_starts_with(t, "https://"@) {
        assert(t.take(8)[0] == t[0]);
    }
    if pfx == "tcp://"@ {
        assert(t.take(6) =~= "tcp://"@);
        assert(t.skip(6) =~= b);
    } else {
        assert(t.take(4) =~= "tcp:"@);
        assert(t.skip(4) =~= b);
        if seq_starts_with(t, "tcp://"@) {
            assert(t.take(6)[4] == t[4]);
            assert(t.take(6)[5] == t[5]);
            assert(t[4] == b[0]);
            assert(t[5] == b[1]);
            assert(b.take(2) =~= "//"@) by {
                assert(b.take(2)[0] == b[0]);
                assert(b.take(2)[1] == b[1]);
            }
        }
    }
}

/// Writing a host and a port as `host:port`, with or without a `tcp:` or
/// `tcp://` prefix, and parsing it as a transit relay gives back that
/// host and port. The host is any non-empty text with no surrounding
/// whitespace and no `:` that does not open an IPv6 bracket (`[`) or
/// start with `//`; the one host excluded is `tcp`, since `tcp:` is the
/// optional scheme prefix.
pub proof fn law_transit_relay_round_trip(pfx: Seq<char>, h: Seq<char>, p: u16)
    requires
        pfx == Seq::<char>::empty() || pfx == "tcp:"@ || pfx == "tcp://"@,
        h.len() > 0,
        trim_ws(h) == h,
        !h.contains(':'),
        h[0] != '[',
        !seq_starts_with(h, "//"@),
        h != "tcp"@,
    ensures
        spec_parse_transit_relay(pfx + h + seq![':'] + digits_in_base(p as nat, 10)) == Ok::<
            (Seq<char>, u16),
            Seq<char>,
        >((h, p)),
{
    reveal_strlit("tcp:");
    reveal_strlit("tcp://");
    reveal_strlit("//");
    let d = digits_in_base(p as nat, 10);
    lemma_decimal_digits(p as nat);
    lemma_trimmed_ends(h);
    let n = h.len() as int;
    let b = h + seq![':'] + d;
    let t = pfx + b;
    assert(t =~= pfx + h + seq![':'] + d);
    lemma_host_port_shape(h, d);
    assert(b.take(n) =~= h);
    assert(b.skip(n + 1) =~= d);
    assert(b[0] == h[0]);
    // Nothing to trim.
    let ws = |c: char| is_unicode_whitespace(c);
    assert(!ws(t[0])) by {
        if pfx.len() > 0 {
            assert(t[0] == pfx[0]);
        } else {
            assert(t[0] == b[0]);
        }
    }
    assert(t.last() == b[b.len() - 1]);
    assert(is_ascii_digit(b[b.len() - 1]));
    lemma_trim_start_len(t, ws);
    lemma_trim_end_len(t, ws);
    assert(trim_ws(t) == t);
    if pfx.len() > 0 {
        assert(!seq_starts_with(b, "//"@)) by {
            if seq_starts_with(b, "//"@) {
                assert(b.take(2)[1] == b[1]);
                assert(n >= 2);
                assert(b[1] == h[1]);
                assert(h.take(2) =~= b.take(2));
            }
        }
        lemma_prefixed_body(pfx, b, n);
    } else {
        assert(t =~= b);
        lemma_no_scheme(b, n);
    }
    assert(relay_body(t) == b);
    lemma_last_index_of(b, ':', n);
    assert(d[0] != '+') by {
        assert(is_ascii_digit(d[0]));
    }
    assert(parse_unsigned(d, 65535) == Some(p as nat));
    assert(finish_host_port(h, d) == Ok::<(Seq<char>, u16), Seq<char>>((h, p)));
}

proof fn lemma_index_of_absent<A>(s: Seq<A>, x: A)
    requires
        !s.contains(x),
    ensures
        index_of(s, x) == -1,
    decreases s.len(),
{
    if s.len() > 0 {
        assert(s[0] != x);
        let t = s.drop_first();
        assert(!t.contains(x)) by {
            if t.contains(x) {
                let k = choose|k: int| 0 <= k < t.len() && t[k] == x;
                assert(s[k + 1] == x);
            }
        }
        lemma_index_of_absent(t, x);
    }
}

proof fn lemma_index_of_found<A>(s: Seq<A>, x: A)
    ensures
        index_of(s, x) >= 0 ==> index_of(s, x) < s.len() && s[index_of(s, x)] == x,
    decreases s.len(),
{
    if s.len() > 0 && s[0] != x {
        lemma_index_of_found(s.drop_first(), x);
    }
}

proof fn lemma_remove_unique<A>(s: Seq<A>, i: int)
    requires
        s.no_duplicates(),
        0 <= i < s.len(),
    ensures
        !s.remove(i).contains(s[i]),
{
    if s.remove(i).contains(s[i]) {
        let k = choose|k: int| 0 <= k < s.remove(i).len() && s.remove(i)[k] == s[i];
        let k2 = if k < i {
            k
        } else {
            k + 1
        };
        assert(s[k2] == s[i]);
    }
}

/// With unique ids, dropping `id` from the outgoing table leaves no entry
/// for it.
proof fn lemma_drop_out_forgets(t: Seq<OutgoingView>, id: Seq<char>)
    requires
        out_ids(t).no_duplicates(),
    ensures
        out_index(drop_out(t, id), id) == -1,
{
    let ids = out_ids(t);
    lemma_index_of_found(ids, id);
    let i = out_index(t, id);
    if i >= 0 {
        lemma_remove_unique(ids, i);
        assert(out_ids(t.remove(i)) =~= ids.remove(i));
        lemma_index_of_absent(ids.remove(i), id);
    } else {
        lemma_index_of_found(ids, id);
    }
}

proof fn lemma_drop_in_forgets(t: Seq<IncomingView>, id: Seq<char>)
    requires
        in_ids(t).no_duplicates(),
    ensures
        in_index(drop_in(t, id), id) == -1,
{
    let ids = in_ids(t);
    lemma_index_of_found(ids, id);
    let i = in_index(t, id);
    if i >= 0 {
        lemma_remove_unique(ids, i);
        assert(in_ids(t.remove(i)) =~= ids.remove(i));
        lemma_index_of_absent(ids.remove(i), id);
    }
}

/// Tables with one entry per transfer id, as a running session keeps them.
pub open spec fn ids_unique(t: TransfersView) -> bool {
    out_ids(t.outgoing).no_duplicates() && in_ids(t.incoming).no_duplicates()
}

/// A transfer the peer cancels is forgotten on both sides: neither table
/// holds it afterwards.
pub proof fn law_peer_cancel_forgets(t: TransfersView, v: u32, id: Seq<char>, fresh: (async_channel::Sender<()>, async_channel::Receiver<()>))
    requires
        ids_unique(t),
    ensures
        out_index(peer_model(t, AppMsgView::FileCancel { v, id }, fresh).0.outgoing, id) == -1,
        in_index(peer_model(t, AppMsgView::FileCancel { v, id }, fresh).0.incoming, id) == -1,
{
    lemma_drop_out_forgets(t.outgoing, id);
    lemma_drop_in_forgets(t.incoming, id);
}

/// Once the peer confirms a transfer as done, or rejects our offer, the
/// offer is no longer held.
pub proof fn law_done_or_rejected_offer_forgotten(
    t: TransfersView,
    v: u32,
    id: Seq<char>,
    ok: bool,
    reason: Seq<char>,
    fresh: (async_channel::Sender<()>, async_channel::Receiver<()>),
)
    requires
        ids_unique(t),
    ensures
        out_index(peer_model(t, AppMsgView::FileDone { v, id, ok }, fresh).0.outgoing, id) == -1,
        out_index(peer_model(t, AppMsgView::FileReject { v, id, reason }, fresh).0.outgoing, id)
            == -1,
{
    lemma_drop_out_forgets(t.outgoing, id);
}

/// Rejecting an offer locally forgets it.
pub proof fn law_local_reject_forgets(t: TransfersView, id: Seq<char>, reason: Seq<char>)
    requires
        ids_unique(t),
    ensures
        in_index(reject_model(t, id, reason).0.incoming, id) == -1,
{
    lemma_drop_in_forgets(t.incoming, id);
    lemma_index_of_found(in_ids(t.incoming), id);
}

/// Cancelling locally forgets the outgoing transfer `id`, or, when we
/// offered none under that id, the incoming one.
pub proof fn law_local_cancel_forgets(t: TransfersView, id: Seq<char>)
    requires
        ids_unique(t),
    ensures
        out_index(cancel_model(t, id).0.outgoing, id) == -1,
        out_index(t.outgoing, id) < 0 ==> in_index(cancel_model(t, id).0.incoming, id) == -1,
{
    lemma_drop_out_forgets(t.outgoing, id);
    lemma_drop_in_forgets(t.incoming, id);
    lemma_index_of_found(out_ids(t.outgoing), id);
    lemma_index_of_found(in_ids(t.incoming), id);
}

/// An offer is streamed at most once: a repeated (or stale) acceptance of
/// the same offer starts nothing and changes nothing.
pub proof fn law_accept_starts_at_most_once(
    t: TransfersView,
    first: AppMsgView,
    second: AppMsgView,
    id: Seq<char>,
    fresh1: (async_channel::Sender<()>, async_channel::Receiver<()>),
    fresh2: (async_channel::Sender<()>, async_channel::Receiver<()>),
)
    requires
        first matches AppMsgView::FileAccept { id: i1, .. } && i1 == id,
        second matches AppMsgView::FileAccept { id: i2, .. } && i2 == id,
    ensures
        peer_model(peer_model(t, first, fresh1).0, second, fresh2).1 == Seq::<ActionView>::empty(),
{
    let t1 = peer_model(t, first, fresh1).0;
    let i = out_index(t.outgoing, id);
    lemma_index_of_found(out_ids(t.outgoing), id);
    if crate::session::starts_send(t, id) {
        let o = t.outgoing[i];
        assert(out_ids(t1.outgoing) =~= out_ids(t.outgoing));
        assert(t1.outgoing[i] == OutgoingView { connector: None, cancel_tx: Some(fresh1.0), ..o });
    }
}

/// An escaped log line holds no line break, so every message the UI logs
/// stays on one line.
pub proof fn law_escaped_log_line_is_one_line(m: Seq<char>)
    ensures
        forall|k: int| 0 <= k < escaped(m).len() ==> #[trigger] escaped(m)[k] != '\n'
            && escaped(m)[k] != '\r',
    decreases m.len(),
{
    if m.len() > 0 {
        let t = m.drop_last();
        law_escaped_log_line_is_one_line(t);
        let e = escaped(m);
        let et = escaped(t);
        let tail = escape_char(m.last());
        assert(e == et + tail);
        assert forall|k: int| 0 <= k < e.len() implies #[trigger] e[k] != '\n' && e[k] != '\r' by {
            if k < et.len() {
                assert(e[k] == et[k]);
            } else {
                assert(e[k] == tail[k - et.len()]);
            }
        }
    }
}

/// The relays a session uses are never blank: a cleared setting falls back
/// to the built-in relay.
pub proof fn law_relay_setting_never_blank(value: Seq<char>)
    ensures
        effective_relay(value, DEFAULT_MAILBOX_RELAY@).len() > 0,
        effective_relay(value, DEFAULT_TRANSIT_RELAY@).len() > 0,
{
    reveal_strlit("wss://mailbox.mw.leastauthority.com/v1");
    reveal_strlit("relay.mw.leastauthority.com:4001");
}

/// A lower-case hexadecimal digit.
pub open spec fn is_lower_hex(c: char) -> bool {
    ('0' <= c && c <= '9') || ('a' <= c && c <= 'f')
}

/// The value of a lower-case hexadecimal digit.
pub open spec fn hex_value(c: char) -> int {
    if '0' <= c && c <= '9' {
        c as int - '0' as int
    } else {
        c as int - 'a' as int + 10
    }
}

proof fn lemma_hex_digit(d: nat)
    requires
        d < 16,
    ensures
        is_lower_hex(digit_char(d)),
        hex_value(digit_char(d)) == d,
{
}

/// Hex encoding writes two lower-case digits per byte, and each pair reads
/// back as its byte.
pub proof fn law_hex_round_trip(b: Seq<u8>)
    ensures
        hex_of(b).len() == 2 * b.len(),
        forall|k: int| 0 <= k < hex_of(b).len() ==> is_lower_hex(#[trigger] hex_of(b)[k]),
        forall|i: int|
            0 <= i < b.len() ==> 16 * hex_value(#[trigger] hex_of(b)[2 * i]) + hex_value(
                hex_of(b)[2 * i + 1],
            ) == b[i],
    decreases b.len(),
{
    if b.len() > 0 {
        let a = b.drop_last();
        law_hex_round_trip(a);
        let x = b.last();
        let h = hex_of(b);
        let ha = hex_of(a);
        let hp = hex_pair(x);
        assert(h == ha + hp);
        lemma_hex_digit((x / 16) as nat);
        lemma_hex_digit((x % 16) as nat);
        assert(16 * (x / 16) + x % 16 == x);
        assert forall|k: int| 0 <= k < h.len() implies is_lower_hex(#[trigger] h[k]) by {
            if k < ha.len() {
                assert(h[k] == ha[k]);
            } else {
                assert(h[k] == hp[k - ha.len()]);
            }
        }
        assert forall|i: int| 0 <= i < b.len() implies 16 * hex_value(#[trigger] h[2 * i])
            + hex_value(h[2 * i + 1]) == b[i] by {
            if i < a.len() {
                assert(h[2 * i] == ha[2 * i]);
                assert(h[2 * i + 1] == ha[2 * i + 1]);
                assert(b[i] == a[i]);
            } else {
                assert(h[2 * i] == hp[0]);
                assert(h[2 * i + 1] == hp[1]);
            }
        }
    }
}

/// The position of an error's variant in the declaration of `CoreError`.
pub open spec fn variant_of(e: CoreError) -> int {
    match e {
        CoreError::Wormhole(_) => 0,
        CoreError::InvalidCode(_) => 1,
        CoreError::PakeFailed => 2,
        CoreError::Io(_) => 3,
        CoreError::Json(_) => 4,
        CoreError::Protocol(_) => 5,
        CoreError::InvalidState => 6,
        CoreError::ChannelClosed => 7,
        CoreError::PeerTimeout => 8,
        CoreError::FolderUnsupported => 9,
        CoreError::TransitRelayEmpty => 10,
        CoreError::TransitRelayBadScheme(_) => 11,
        CoreError::TransitRelayIpv6MissingBracket(_) => 12,
        CoreError::TransitRelayIpv6MissingPort(_) => 13,
        CoreError::TransitRelayBadFormat(_) => 14,
        CoreError::TransitRelayBadPort(_) => 15,
        CoreError::TransitRelayHostEmpty => 16,
        CoreError::ShortCodeMissingDash => 17,
        CoreError::ShortCodeEmptyPart => 18,
        CoreError::Other(_) => 19,
    }
}

/// The variant an error code names.
spec fn variant_named(c: Seq<char>) -> int {
    if c == "wormhole"@ {
        0
    } else if c == "invalid_code"@ {
        1
    } else if c == "pake_failed"@ {
        2
    } else if c == "io"@ {
        3
    } else if c == "json"@ {
        4
    } else if c == "protocol"@ {
        5
    } else if c == "invalid_state"@ {
        6
    } else if c == "channel_closed"@ {
        7
    } else if c == "peer_timeout"@ {
        8
    } else if c == "folder_unsupported"@ {
        9
    } else if c == "transit_relay_empty"@ {
        10
    } else if c == "transit_relay_bad_scheme"@ {
        11
    } else if c == "transit_relay_ipv6_bracket"@ {
        12
    } else if c == "transit_relay_ipv6_port"@ {
        13
    } else if c == "transit_relay_bad_format"@ {
        14
    } else if c == "transit_relay_bad_port"@ {
        15
    } else if c == "transit_relay_host_empty"@ {
        16
    } else if c == "short_code_missing_dash"@ {
        17
    } else if c == "short_code_empty_part"@ {
        18
    } else {
        19
    }
}

proof fn lemma_code_names_variant(e: CoreError)
    ensures
        variant_named(e.spec_code()) == variant_of(e),
{
    reveal_strlit("wormhole");
    reveal_strlit("invalid_code");
    reveal_strlit("pake_failed");
    reveal_strlit("io");
    reveal_strlit("json");
    reveal_strlit("protocol");
    reveal_strlit("invalid_state");
    reveal_strlit("channel_closed");
    reveal_strlit("peer_timeout");
    reveal_strlit("folder_unsupported");
    reveal_strlit("transit_relay_empty");
    reveal_strlit("transit_relay_bad_scheme");
    reveal_strlit("transit_relay_ipv6_bracket");
    reveal_strlit("transit_relay_ipv6_port");
    reveal_strlit("transit_relay_bad_format");
    reveal_strlit("transit_relay_bad_port");
    reveal_strlit("transit_relay_host_empty");
    reveal_strlit("short_code_missing_dash");
    reveal_strlit("short_code_empty_part");
    reveal_strlit("other");
    match e {
        CoreError::Wormhole(_) => {},
        CoreError::InvalidCode(_) => {
            assert("invalid_code"@.len() != "wormhole"@.len());
        },
        CoreError::PakeFailed => {
            assert("pake_failed"@.len() != "wormhole"@.len());
            assert("pake_failed"@.len() != "invalid_code"@.len());
        },
        CoreError::Io(_) => {
            assert("io"@.len() != "wormhole"@.len());
            assert("io"@.len() != "invalid_code"@.len());
            assert("io"@.len() != "pake_failed"@.len());
        },
        CoreError::Json(_) => {
            assert("json"@.len() != "wormhole"@.len());
            assert("json"@.len() != "invalid_code"@.len());
            assert("json"@.len() != "pake_failed"@.len());
            assert("json"@.len() != "io"@.len());
        },
        CoreError::Protocol(_) => {
            assert("protocol"@[0] != "wormhole"@[0]);
            assert("protocol"@.len() != "invalid_code"@.len());
            assert("protocol"@.len() != "pake_failed"@.len());
            assert("protocol"@.len() != "io"@.len());
            assert("protocol"@.len() != "json"@.len());
        },
        CoreError::InvalidState => {
            assert("invalid_state"@.len() != "wormhole"@.len());
            assert("invalid_state"@.len() != "invalid_code"@.len());
            assert("invalid_state"@.len() != "pake_failed"@.len());
            assert("invalid_state"@.len() != "io"@.len());
            assert("invalid_state"@.len() != "json"@.len());
            assert("invalid_state"@.len() != "protocol"@.len());
        },
        CoreError::ChannelClosed => {
            assert("channel_closed"@.len() != "wormhole"@.len());
            assert("channel_closed"@.len() != "invalid_code"@.len());
            assert("channel_closed"@.len() != "pake_failed"@.len());
            assert("channel_closed"@.len() != "io"@.len());
            assert("channel_closed"@.len() != "json"@.len());
            assert("channel_closed"@.len() != "protocol"@.len());
            assert("channel_closed"@.len() != "invalid_state"@.len());
        },
        CoreError::PeerTimeout => {
            assert("peer_timeout"@.len() != "wormhole"@.len());
            assert("peer_timeout"@[0] != "invalid_code"@[0]);
            assert("peer_timeout"@.len() != "pake_failed"@.len());
            assert("peer_timeout"@.len() != "io"@.len());
            assert("peer_timeout"@.len() != "json"@.len());
            assert("peer_timeout"@.len() != "protocol"@.len());
            assert("peer_timeout"@.len() != "invalid_state"@.len());
            assert("peer_timeout"@.len() != "channel_closed"@.len());
        },
        CoreError::FolderUnsupported => {
            assert("folder_unsupported"@.len() != "wormhole"@.len());
            assert("folder_unsupported"@.len() != "invalid_code"@.len());
            assert("folder_unsupported"@.len() != "pake_failed"@.len());
            assert("folder_unsupported"@.len() != "io"@.len());
            assert("folder_unsupported"@.len() != "json"@.len());
            assert("folder_unsupported"@.len() != "protocol"@.len());
            assert("folder_unsupported"@.len() != "invalid_state"@.len());
            assert("folder_unsupported"@.len() != "channel_closed"@.len());
            assert("folder_unsupported"@.len() != "peer_timeout"@.len());
        },
        CoreError::TransitRelayEmpty => {
            assert("transit_relay_empty"@.len() != "wormhole"@.len());
            assert("transit_relay_empty"@.len() != "invalid_code"@.len());
            assert("transit_relay_empty"@.len() != "pake_failed"@.len());
            assert("transit_relay_empty"@.len() != "io"@.len());
            assert("transit_relay_empty"@.len() != "json"@.len());
            assert("transit_relay_empty"@.len() != "protocol"@.len());
            assert("transit_relay_empty"@.len() != "invalid_state"@.len());
            assert("transit_relay_empty"@.len() != "channel_closed"@.len());
            assert("transit_relay_empty"@.len() != "peer_timeout"@.len());
            assert("transit_relay_empty"@.len() != "folder_unsupported"@.len());
        },
        CoreError::TransitRelayBadScheme(_) => {
            assert("transit_relay_bad_scheme"@.len() != "wormhole"@.len());
            assert("transit_relay_bad_scheme"@.len() != "invalid_code"@.len());
            assert("transit_relay_bad_scheme"@.len() != "pake_failed"@.len());
            assert("transit_relay_bad_scheme"@.len() != "io"@.len());
            assert("transit_relay_bad_scheme"@.len() != "json"@.len());
            assert("transit_relay_bad_scheme"@.len() != "protocol"@.len());
            assert("transit_relay_bad_scheme"@.len() != "invalid_state"@.len());
            assert("transit_relay_bad_scheme"@.len() != "channel_closed"@.len());
            assert("transit_relay_bad_scheme"@.len() != "peer_timeout"@.len());
            assert("transit_relay_bad_scheme"@.len() != "folder_unsupported"@.len());
            assert("transit_relay_bad_scheme"@.len() != "transit_relay_empty"@.len());
        },
        CoreError::TransitRelayIpv6MissingBracket(_) => {
            assert("transit_relay_ipv6_bracket"@.len() != "wormhole"@.len());
            assert("transit_relay_ipv6_bracket"@.len() != "invalid_code"@.len());
            assert("transit_relay_ipv6_bracket"@.len() != "pake_failed"@.len());
            assert("transit_relay_ipv6_bracket"@.len() != "io"@.len());
            assert("transit_relay_ipv6_bracket"@.len() != "json"@.len());
            assert("transit_relay_ipv6_bracket"@.len() != "protocol"@.len());
            assert("transit_relay_ipv6_bracket"@.len() != "invalid_state"@.len());
            assert("transit_relay_ipv6_bracket"@.len() != "channel_closed"@.len());
            assert("transit_relay_ipv6_bracket"@.len() != "peer_timeout"@.len());
            assert("transit_relay_ipv6_bracket"@.len() != "folder_unsupported"@.len());
            assert("transit_relay_ipv6_bracket"@.len() != "transit_relay_empty"@.len());
            assert("transit_relay_ipv6_bracket"@.len() != "transit_relay_bad_scheme"@.len());
        },
        CoreError::TransitRelayIpv6MissingPort(_) => {
            assert("transit_relay_ipv6_port"@.len() != "wormhole"@.len());
            assert("transit_relay_ipv6_port"@.len() != "invalid_code"@.len());
            assert("transit_relay_ipv6_port"@.len() != "pake_failed"@.len());
            assert("transit_relay_ipv6_port"@.len() != "io"@.len());
            assert("transit_relay_ipv6_port"@.len() != "json"@.len());
            assert("transit_relay_ipv6_port"@.len() != "protocol"@.len());
            assert("transit_relay_ipv6_port"@.len() != "invalid_state"@.len());
            assert("transit_relay_ipv6_port"@.len() != "channel_closed"@.len());
            assert("transit_relay_ipv6_port"@.len() != "peer_timeout"@.len());
            assert("transit_relay_ipv6_port"@.len() != "folder_unsupported"@.len());
            assert("transit_relay_ipv6_port"@.len() != "transit_relay_empty"@.len());
            assert("transit_relay_ipv6_port"@.len() != "transit_relay_bad_scheme"@.len());
            assert("transit_relay_ipv6_port"@.len() != "transit_relay_ipv6_bracket"@.len());
        },
        CoreError::TransitRelayBadFormat(_) => {
            assert("transit_relay_bad_format"@.len() != "wormhole"@.len());
            assert("transit_relay_bad_format"@.len() != "invalid_code"@.len());
            assert("transit_relay_bad_format"@.len() != "pake_failed"@.len());
            assert("transit_relay_bad_format"@.len() != "io"@.len());
            assert("transit_relay_bad_format"@.len() != "json"@.len());
            assert("transit_relay_bad_format"@.len() != "protocol"@.len());
            assert("transit_relay_bad_format"@.len() != "invalid_state"@.len());
            assert("transit_relay_bad_format"@.len() != "channel_closed"@.len());
            assert("transit_relay_bad_format"@.len() != "peer_timeout"@.len());
            assert("transit_relay_bad_format"@.len() != "folder_unsupported"@.len());
            assert("transit_relay_bad_format"@.len() != "transit_relay_empty"@.len());
            assert("transit_relay_bad_format"@[18] != "transit_relay_bad_scheme"@[18]);
            assert("transit_relay_bad_format"@.len() != "transit_relay_ipv6_bracket"@.len());
            assert("transit_relay_bad_format"@.len() != "transit_relay_ipv6_port"@.len());
        },
        CoreError::TransitRelayBadPort(_) => {
            assert("transit_relay_bad_port"@.len() != "wormhole"@.len());
            assert("transit_relay_bad_port"@.len() != "invalid_code"@.len());
            assert("transit_relay_bad_port"@.len() != "pake_failed"@.len());
            assert("transit_relay_bad_port"@.len() != "io"@.len());
            assert("transit_relay_bad_port"@.len() != "json"@.len());
            assert("transit_relay_bad_port"@.len() != "protocol"@.len());
            assert("transit_relay_bad_port"@.len() != "invalid_state"@.len());
            assert("transit_relay_bad_port"@.len() != "channel_closed"@.len());
            assert("transit_relay_bad_port"@.len() != "peer_timeout"@.len());
            assert("transit_relay_bad_port"@.len() != "folder_unsupported"@.len());
            assert("transit_relay_bad_port"@.len() != "transit_relay_empty"@.len());
            assert("transit_relay_bad_port"@.len() != "transit_relay_bad_scheme"@.len());
            assert("transit_relay_bad_port"@.len() != "transit_relay_ipv6_bracket"@.len());
            assert("transit_relay_bad_port"@.len() != "transit_relay_ipv6_port"@.len());
            assert("transit_relay_bad_port"@.len() != "transit_relay_bad_format"@.len());
        },
        CoreError::TransitRelayHostEmpty => {
            assert("transit_relay_host_empty"@.len() != "wormhole"@.len());
            assert("transit_relay_host_empty"@.len() != "invalid_code"@.len());
            assert("transit_relay_host_empty"@.len() != "pake_failed"@.len());
            assert("transit_relay_host_empty"@.len() != "io"@.len());
            assert("transit_relay_host_empty"@.len() != "json"@.len());
            assert("transit_relay_host_empty"@.len() != "protocol"@.len());
            assert("transit_relay_host_empty"@.len() != "invalid_state"@.len());
            assert("transit_relay_host_empty"@.len() != "channel_closed"@.len());
            assert("transit_relay_host_empty"@.len() != "peer_timeout"@.len());
            assert("transit_relay_host_empty"@.len() != "folder_unsupported"@.len());
            assert("transit_relay_host_empty"@.len() != "transit_relay_empty"@.len());
            assert("transit_relay_host_empty"@[14] != "transit_relay_bad_scheme"@[14]);
            assert("transit_relay_host_empty"@.len() != "transit_relay_ipv6_bracket"@.len());
            assert("transit_relay_host_empty"@.len() != "transit_relay_ipv6_port"@.len());
            assert("transit_relay_host_empty"@[14] != "transit_relay_bad_format"@[14]);
            assert("transit_relay_host_empty"@.len() != "transit_relay_bad_port"@.len());
        },
        CoreError::ShortCodeMissingDash => {
            assert("short_code_missing_dash"@.len() != "wormhole"@.len());
            assert("short_code_missing_dash"@.len() != "invalid_code"@.len());
            assert("short_code_missing_dash"@.len() != "pake_failed"@.len());
            assert("short_code_missing_dash"@.len() != "io"@.len());
            assert("short_code_missing_dash"@.len() != "json"@.len());
            assert("short_code_missing_dash"@.len() != "protocol"@.len());
            assert("short_code_missing_dash"@.len() != "invalid_state"@.len());
            assert("short_code_missing_dash"@.len() != "channel_closed"@.len());
            assert("short_code_missing_dash"@.len() != "peer_timeout"@.len());
            assert("short_code_missing_dash"@.len() != "folder_unsupported"@.len());
            assert("short_code_missing_dash"@.len() != "transit_relay_empty"@.len());
            assert("short_code_missing_dash"@.len() != "transit_relay_bad_scheme"@.len());
            assert("short_code_missing_dash"@.len() != "transit_relay_ipv6_bracket"@.len());
            assert("short_code_missing_dash"@[0] != "transit_relay_ipv6_port"@[0]);
            assert("short_code_missing_dash"@.len() != "transit_relay_bad_format"@.len());
            assert("short_code_missing_dash"@.len() != "transit_relay_bad_port"@.len());
            assert("short_code_missing_dash"@.len() != "transit_relay_host_empty"@.len());
        },
        CoreError::ShortCodeEmptyPart => {
            assert("short_code_empty_part"@.len() != "wormhole"@.len());
            assert("short_code_empty_part"@.len() != "invalid_code"@.len());
            assert("short_code_empty_part"@.len() != "pake_failed"@.len());
            assert("short_code_empty_part"@.len() != "io"@.len());
            assert("short_code_empty_part"@.len() != "json"@.len());
            assert("short_code_empty_part"@.len() != "protocol"@.len());
            assert("short_code_empty_part"@.len() != "invalid_state"@.len());
            assert("short_code_empty_part"@.len() != "channel_closed"@.len());
            assert("short_code_empty_part"@.len() != "peer_timeout"@.len());
            assert("short_code_empty_part"@.len() != "folder_unsupported"@.len());
            assert("short_code_empty_part"@.len() != "transit_relay_empty"@.len());
            assert("short_code_empty_part"@.len() != "transit_relay_bad_scheme"@.len());
            assert("short_code_empty_part"@.len() != "transit_relay_ipv6_bracket"@.len());
            assert("short_code_empty_part"@.len() != "transit_relay_ipv6_port"@.len());
            assert("short_code_empty_part"@.len() != "transit_relay_bad_format"@.len());
            assert("short_code_empty_part"@.len() != "transit_relay_bad_port"@.len());
            assert("short_code_empty_part"@.len() != "transit_relay_host_empty"@.len());
            assert("short_code_empty_part"@.len() != "short_code_missing_dash"@.len());
        },
        CoreError::Other(_) => {
            assert("other"@.len() != "wormhole"@.len());
            assert("other"@.len() != "invalid_code"@.len());
            assert("other"@.len() != "pake_failed"@.len());
            assert("other"@.len() != "io"@.len());
            assert("other"@.len() != "json"@.len());
            assert("other"@.len() != "protocol"@.len());
            assert("other"@.len() != "invalid_state"@.len());
            assert("other"@.len() != "channel_closed"@.len());
            assert("other"@.len() != "peer_timeout"@.len());
            assert("other"@.len() != "folder_unsupported"@.len());
            assert("other"@.len() != "transit_relay_empty"@.len());
            assert("other"@.len() != "transit_relay_bad_scheme"@.len());
            assert("other"@.len() != "transit_relay_ipv6_bracket"@.len());
            assert("other"@.len() != "transit_relay_ipv6_port"@.len());
            assert("other"@.len() != "transit_relay_bad_format"@.len());
            assert("other"@.len() != "transit_relay_bad_port"@.len());
            assert("other"@.len() != "transit_relay_host_empty"@.len());
            assert("other"@.len() != "short_code_missing_dash"@.len());
            assert("other"@.len() != "short_code_empty_part"@.len());
        },
    }
}

/// Error codes name variants: two errors have the same code exactly when
/// they are of the same variant, whatever they carry.
pub proof fn law_error_code_names_the_variant(e1: CoreError, e2: CoreError)
    ensures
        e1.spec_code() == e2.spec_code() <==> variant_of(e1) == variant_of(e2),
{
    lemma_code_names_variant(e1);
    lemma_code_names_variant(e2);
    if variant_of(e1) == variant_of(e2) {
        assert(e1.spec_code() == e2.spec_code());
    }
}

} // verus!
