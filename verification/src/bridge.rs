//! What the desktop host shows the UI: the event name and payload fields
//! for each session event, plus the small input rules of its commands.

use vstd::prelude::*;
use crate::error::CoreError;
use crate::protocol::opt_text;
use crate::session::{Cancelled, Direction, Evt};
use crate::text::{chars_of, find_first, slice_chars, string_of};

verus! {

/// How the user starts a session: sending (allocates the code) or
/// receiving (joins with a code).
#[derive(Debug, Clone, Copy)]
pub enum SessionMode {
    Send,
    Recv,
}

pub open spec fn spec_dir_str(d: Direction) -> Seq<char> {
    match d {
        Direction::In => "in"@,
        Direction::Out => "out"@,
    }
}

pub fn dir_str(d: Direction) -> (r: &'static str)
    ensures
        r@ == spec_dir_str(d),
{
    match d {
        Direction::In => "in",
        Direction::Out => "out",
    }
}

pub open spec fn spec_by_str(c: Cancelled) -> Seq<char> {
    match c {
        Cancelled::Local => "self"@,
        Cancelled::Peer => "peer"@,
    }
}

pub fn by_str(c: Cancelled) -> (r: &'static str)
    ensures
        r@ == spec_by_str(c),
{
    match c {
        Cancelled::Local => "self",
        Cancelled::Peer => "peer",
    }
}

/// One value of an event payload.
pub enum Field {
    Str(String),
    U64(u64),
    Bool(bool),
    /// A string or `null`.
    OptStr(Option<String>),
}

pub enum FieldView {
    Str(Seq<char>),
    U64(u64),
    Bool(bool),
    OptStr(Option<Seq<char>>),
}

impl View for Field {
    type V = FieldView;

    open spec fn view(&self) -> FieldView {
        match self {
            Field::Str(s) => FieldView::Str(s@),
            Field::U64(n) => FieldView::U64(*n),
            Field::Bool(b) => FieldView::Bool(*b),
            Field::OptStr(o) => FieldView::OptStr(opt_text(*o)),
        }
    }
}

/// A UI event: its name and its payload as named fields.
pub struct UiEvent {
    pub name: &'static str,
    pub fields: Vec<(&'static str, Field)>,
}

pub open spec fn fields_view(f: Seq<(&'static str, Field)>) -> Seq<(Seq<char>, FieldView)> {
    f.map_values(|p: (&'static str, Field)| (p.0@, p.1@))
}

pub open spec fn sf(k: Seq<char>, v: Seq<char>) -> (Seq<char>, FieldView) {
    (k, FieldView::Str(v))
}

pub open spec fn nf(k: Seq<char>, v: u64) -> (Seq<char>, FieldView) {
    (k, FieldView::U64(v))
}

/// Name and payload of the UI event for each session event.
pub open spec fn ui_event_model(e: Evt) -> (Seq<char>, Seq<(Seq<char>, FieldView)>) {
    match e {
        Evt::Code(code) => ("session:code"@, seq![sf("code"@, code@)]),
        Evt::Connected => ("session:connected"@, Seq::empty()),
        Evt::TextReceived { id, content, ts } => (
            "msg:text"@,
            seq![sf("id"@, id@), sf("content"@, content@), nf("ts"@, ts), sf("from"@, "peer"@)],
        ),
        Evt::TextSent { id, content, ts } => (
            "msg:text_sent"@,
            seq![sf("id"@, id@), sf("content"@, content@), nf("ts"@, ts)],
        ),
        Evt::FileOffer { id, name, size, mime } => (
            "msg:file_offer"@,
            seq![
                sf("id"@, id@),
                sf("name"@, name@),
                nf("size"@, size),
                ("mime"@, FieldView::OptStr(opt_text(mime))),
                sf("from"@, "peer"@),
            ],
        ),
        Evt::FileOfferSent { id, name, size } => (
            "msg:file_offer_sent"@,
            seq![sf("id"@, id@), sf("name"@, name@), nf("size"@, size)],
        ),
        Evt::FileAccepted { id } => ("file:accepted"@, seq![sf("id"@, id@)]),
        Evt::FileProgress { id, bytes, total, dir } => (
            "file:progress"@,
            seq![
                sf("id"@, id@),
                nf("bytes"@, bytes),
                nf("total"@, total),
                sf("dir"@, spec_dir_str(dir)),
            ],
        ),
        Evt::FileDone { id, ok, dir, save_path } => (
            "file:done"@,
            seq![
                sf("id"@, id@),
                ("ok"@, FieldView::Bool(ok)),
                sf("dir"@, spec_dir_str(dir)),
                ("save_path"@, FieldView::OptStr(opt_text(save_path))),
            ],
        ),
        Evt::FileCancelled { id, by } => (
            "file:cancelled"@,
            seq![sf("id"@, id@), sf("by"@, spec_by_str(by))],
        ),
        Evt::FileError { id, message } => (
            "file:error"@,
            seq![sf("id"@, id@), sf("message"@, message@)],
        ),
        Evt::Closed { reason } => ("session:closed"@, seq![sf("reason"@, reason@)]),
        Evt::Error { code, message } => (
            "error"@,
            seq![sf("code"@, code@), sf("message"@, message@)],
        ),
    }
}

fn s(k: &'static str, v: String) -> (r: (&'static str, Field))
    ensures
        (r.0@, r.1@) == sf(k@, v@),
{
    (k, Field::Str(v))
}

fn n(k: &'static str, v: u64) -> (r: (&'static str, Field))
    ensures
        (r.0@, r.1@) == nf(k@, v),
{
    (k, Field::U64(v))
}

/// The UI event (name and payload) for a session event.
pub fn ui_event(evt: Evt) -> (r: UiEvent)
    ensures
        (r.name@, fields_view(r.fields@)) == ui_event_model(evt),
{
    let ghost e = evt;
    let mut f: Vec<(&'static str, Field)> = Vec::new();
    let name = match evt {
        Evt::Code(code) => {
            f.push(s("code", code));
            "session:code"
        },
        Evt::Connected => "session:connected",
        Evt::TextReceived { id, content, ts } => {
            f.push(s("id", id));
            f.push(s("content", content));
            f.push(n("ts", ts));
            f.push(s("from", "peer".to_owned()));
            "msg:text"
        },
        Evt::TextSent { id, content, ts } => {
            f.push(s("id", id));
            f.push(s("content", content));
            f.push(n("ts", ts));
            "msg:text_sent"
        },
        Evt::FileOffer { id, name, size, mime } => {
            f.push(s("id", id));
            f.push(s("name", name));
            f.push(n("size", size));
            f.push(("mime", Field::OptStr(mime)));
            f.push(s("from", "peer".to_owned()));
            "msg:file_offer"
        },
        Evt::FileOfferSent { id, name, size } => {
            f.push(s("id", id));
            f.push(s("name", name));
            f.push(n("size", size));
            "msg:file_offer_sent"
        },
        Evt::FileAccepted { id } => {
            f.push(s("id", id));
            "file:accepted"
        },
        Evt::FileProgress { id, bytes, total, dir } => {
            f.push(s("id", id));
            f.push(n("bytes", bytes));
            f.push(n("total", total));
            f.push(s("dir", dir_str(dir).to_owned()));
            "file:progress"
        },
        Evt::FileDone { id, ok, dir, save_path } => {
            f.push(s("id", id));
            f.push(("ok", Field::Bool(ok)));
            f.push(s("dir", dir_str(dir).to_owned()));
            f.push(("save_path", Field::OptStr(save_path)));
            "file:done"
        },
        Evt::FileCancelled { id, by } => {
            f.push(s("id", id));
            f.push(s("by", by_str(by).to_owned()));
            "file:cancelled"
        },
        Evt::FileError { id, message } => {
            f.push(s("id", id));
            f.push(s("message", message));
            "file:error"
        },
        Evt::Closed { reason } => {
            f.push(s("reason", reason));
            "session:closed"
        },
        Evt::Error { code, message } => {
            f.push(s("code", code));
            f.push(s("message", message));
            "error"
        },
    };
    assert(fields_view(f@) =~= ui_event_model(e).1);
    UiEvent { name, fields: f }
}

/// Splits a short code at its first `-` into nameplate and password.
pub open spec fn spec_split_code(code: Seq<char>) -> Option<(Seq<char>, Seq<char>)> {
    let i = crate::text::first_index_of(code, '-');
    if i < 0 {
        None
    } else {
        Some((code.take(i), code.skip(i + 1)))
    }
}

/// The nameplate and password of a short code typed by the user, checked
/// locally before joining: a code without `-` and a code with an empty
/// side are refused.
pub fn split_short_code(code: &str) -> (r: Result<(String, String), CoreError>)
    ensures
        spec_split_code(code@) is None ==> r matches Err(CoreError::ShortCodeMissingDash),
        spec_split_code(code@) matches Some((np, pw)) ==> (if np.len() == 0 || pw.len() == 0 {
            r matches Err(CoreError::ShortCodeEmptyPart)
        } else {
            r matches Ok((a, b)) && a@ == np && b@ == pw
        }),
{
    let v = chars_of(code);
    let len = v.len();
    assert(v@.subrange(0, len as int) =~= v@);
    match find_first(&v, 0, len, '-') {
        None => Err(CoreError::ShortCodeMissingDash),
        Some(i) => {
            assert(v@.take(i as int) =~= v@.subrange(0, i as int));
            assert(v@.skip(i + 1) =~= v@.subrange(i + 1, len as int));
            if i == 0 || i + 1 == len {
                return Err(CoreError::ShortCodeEmptyPart);
            }
            let np = string_of(&slice_chars(&v, 0, i));
            let pw = string_of(&slice_chars(&v, i + 1, len));
            Ok((np, pw))
        },
    }
}

/// Reason sent with a rejection when the user gives none.
pub fn reject_reason(reason: Option<String>) -> (r: String)
    ensures
        reason matches Some(x) ==> r == x,
        reason is None ==> r@ == "user_reject"@,
{
    match reason {
        Some(x) => x,
        None => "user_reject".to_owned(),
    }
}

/// A log line from the UI with line breaks escaped (`\n` and `\r` become
/// the two-character sequences), so the log stays one entry per line.
pub open spec fn escape_char(c: char) -> Seq<char> {
    if c == '\n' {
        seq!['\\', 'n']
    } else if c == '\r' {
        seq!['\\', 'r']
    } else {
        seq![c]
    }
}

pub open spec fn escaped(s: Seq<char>) -> Seq<char>
    decreases s.len(),
{
    if s.len() == 0 {
        Seq::empty()
    } else {
        escaped(s.drop_last()) + escape_char(s.last())
    }
}

pub fn escape_log_line(msg: &str) -> (r: String)
    ensures
        r@ == escaped(msg@),
{
    let v = chars_of(msg);
    let mut out: Vec<char> = Vec::new();
    let mut k: usize = 0;
    while k < v.len()
        invariant
            0 <= k <= v@.len(),
            out@ == escaped(v@.take(k as int)),
        decreases v@.len() - k,
    {
        let c = v[k];
        assert(v@.take(k + 1).drop_last() =~= v@.take(k as int));
        if c == '\n' {
            out.push('\\');
            out.push('n');
        } else if c == '\r' {
            out.push('\\');
            out.push('r');
        } else {
            out.push(c);
        }
        assert(out@ =~= escaped(v@.take(k as int)) + escape_char(c));
        k = k + 1;
    }
    assert(v@.take(v@.len() as int) =~= v@);
    string_of(&out)
}

} // verus!
