//! The session's decision logic. The host runs the loop (the mailbox, the
//! transit tasks, the UI channel); each command, each peer message and
//! each finished transfer goes through a function here that updates the
//! table of pending transfers and says, as a list of actions, what the
//! host must send, emit, cancel or start.

use vstd::prelude::*;
use crate::error::CoreError;
use crate::protocol::{opt_text, AppMsg, AppMsgView, MAX_MAILBOX_PAYLOAD, PROTOCOL_VERSION};
use crate::text::{
    ascii_lower, chars_equal, chars_of, decimal, digits_in_base, find_last, join2, join3,
    last_index_of, slice_chars, to_ascii_lower,
};
use crate::storage::copy_path;
use crate::transfer::{our_abilities, our_hints};

verus! {

#[verifier::external_type_specification]
#[verifier::external_body]
pub struct ExCode(magic_wormhole::Code);

#[verifier::external_type_specification]
#[verifier::external_body]
#[verifier::reject_recursive_types(T)]
pub struct ExSender<T>(async_channel::Sender<T>);

#[verifier::external_type_specification]
#[verifier::external_body]
#[verifier::reject_recursive_types(T)]
pub struct ExReceiver<T>(async_channel::Receiver<T>);

/// Whether `tx` and `rx` are the two ends of one channel, as
/// `async_channel::bounded` hands them out.
pub uninterp spec fn cancel_pair(tx: async_channel::Sender<()>, rx: async_channel::Receiver<()>) -> bool;

/// A fresh one-slot channel that signals a transfer task to stop
/// (`async_channel::bounded(1)`): its sender and its receiver, the two
/// ends of one channel.
#[verifier::external_body]
fn cancel_channel() -> (r: (async_channel::Sender<()>, async_channel::Receiver<()>))
    ensures
        cancel_pair(r.0, r.1),
{
    async_channel::bounded::<()>(1)
}

/// A copy of a peer's transit hints (`Hints::clone`, derived): the copy
/// holds the same hints.
#[verifier::external_body]
fn copy_hints(h: &magic_wormhole::transit::Hints) -> (r: magic_wormhole::transit::Hints)
    ensures
        r == *h,
{
    h.clone()
}

#[derive(Debug, Clone, Copy)]
pub enum Role {
    Allocator,
    Joiner,
}

/// Relay settings and UI language a session starts with.
#[derive(Debug, Clone)]
pub struct SessionConfig {
    pub mailbox_relay: String,
    pub transit_relay: String,
    pub numeric_code: bool,
    pub language: String,
}

#[derive(Debug)]
pub enum Cmd {
    JoinCode(magic_wormhole::Code),
    SendText(String),
    SendFile { path: std::path::PathBuf },
    AcceptFile { id: String, save_dir: std::path::PathBuf },
    RejectFile { id: String, reason: String },
    CancelFile { id: String },
    Close,
}

#[derive(Debug, Clone, Copy, PartialEq, Eq)]
pub enum Direction {
    In,
    Out,
}

#[derive(Debug, Clone, Copy, PartialEq, Eq)]
pub enum Cancelled {
    Local,
    Peer,
}

#[derive(Debug, Clone)]
pub enum Evt {
    Code(String),
    Connected,
    TextReceived { id: String, content: String, ts: u64 },
    TextSent { id: String, content: String, ts: u64 },
    /// Peer sent us a file offer.
    FileOffer { id: String, name: String, size: u64, mime: Option<String> },
    /// Local user's outgoing offer was sent to peer (not yet accepted).
    FileOfferSent { id: String, name: String, size: u64 },
    /// Peer accepted our offer; transit started.
    FileAccepted { id: String },
    /// Streaming progress (in or out). `bytes` is cumulative.
    FileProgress { id: String, bytes: u64, total: u64, dir: Direction },
    /// Transfer completed (either direction).
    FileDone { id: String, ok: bool, dir: Direction, save_path: Option<String> },
    /// Transfer was cancelled by either side.
    FileCancelled { id: String, by: Cancelled },
    /// Soft error specific to a file id (the session stays open).
    FileError { id: String, message: String },
    Closed { reason: String },
    Error { code: String, message: String },
}

pub enum EvtView {
    Code(Seq<char>),
    Connected,
    TextReceived { id: Seq<char>, content: Seq<char>, ts: u64 },
    TextSent { id: Seq<char>, content: Seq<char>, ts: u64 },
    FileOffer { id: Seq<char>, name: Seq<char>, size: u64, mime: Option<Seq<char>> },
    FileOfferSent { id: Seq<char>, name: Seq<char>, size: u64 },
    FileAccepted { id: Seq<char> },
    FileProgress { id: Seq<char>, bytes: u64, total: u64, dir: Direction },
    FileDone { id: Seq<char>, ok: bool, dir: Direction, save_path: Option<Seq<char>> },
    FileCancelled { id: Seq<char>, by: Cancelled },
    FileError { id: Seq<char>, message: Seq<char> },
    Closed { reason: Seq<char> },
    Error { code: Seq<char>, message: Seq<char> },
}

impl View for Evt {
    type V = EvtView;

    open spec fn view(&self) -> EvtView {
        match self {
            Evt::Code(c) => EvtView::Code(c@),
            Evt::Connected => EvtView::Connected,
            Evt::TextReceived { id, content, ts } => EvtView::TextReceived {
                id: id@,
                content: content@,
                ts: *ts,
            },
            Evt::TextSent { id, content, ts } => EvtView::TextSent {
                id: id@,
                content: content@,
                ts: *ts,
            },
            Evt::FileOffer { id, name, size, mime } => EvtView::FileOffer {
                id: id@,
                name: name@,
                size: *size,
                mime: opt_text(*mime),
            },
            Evt::FileOfferSent { id, name, size } => EvtView::FileOfferSent {
                id: id@,
                name: name@,
                size: *size,
            },
            Evt::FileAccepted { id } => EvtView::FileAccepted { id: id@ },
            Evt::FileProgress { id, bytes, total, dir } => EvtView::FileProgress {
                id: id@,
                bytes: *bytes,
                total: *total,
                dir: *dir,
            },
            Evt::FileDone { id, ok, dir, save_path } => EvtView::FileDone {
                id: id@,
                ok: *ok,
                dir: *dir,
                save_path: opt_text(*save_path),
            },
            Evt::FileCancelled { id, by } => EvtView::FileCancelled { id: id@, by: *by },
            Evt::FileError { id, message } => EvtView::FileError { id: id@, message: message@ },
            Evt::Closed { reason } => EvtView::Closed { reason: reason@ },
            Evt::Error { code, message } => EvtView::Error { code: code@, message: message@ },
        }
    }
}

/// What a transfer task needs to stream a file to the peer.
pub struct SendJob {
    pub id: String,
    pub connector: magic_wormhole::transit::TransitConnector,
    pub their_abilities: magic_wormhole::transit::Abilities,
    pub their_hints: magic_wormhole::transit::Hints,
    pub path: std::path::PathBuf,
    pub size: u64,
    pub cancel_rx: async_channel::Receiver<()>,
}

/// What a transfer task needs to receive a file from the peer.
pub struct RecvJob {
    pub id: String,
    pub connector: magic_wormhole::transit::TransitConnector,
    pub their_abilities: magic_wormhole::transit::Abilities,
    pub their_hints: magic_wormhole::transit::Hints,
    pub save_path: std::path::PathBuf,
    pub size: u64,
    pub cancel_rx: async_channel::Receiver<()>,
}

/// One effect for the host to carry out, in order.
pub enum Action {
    /// Send to the peer over the mailbox; a failure is ignored.
    Send(AppMsg),
    /// Send to the peer; a failure skips the remaining actions and is
    /// reported to the UI as an `Evt::Error`.
    SendChecked(AppMsg),
    /// Deliver an event to the UI; a failure is ignored.
    Emit(Evt),
    /// Ask the transfer task on the other end to stop; a failure is ignored.
    Cancel(async_channel::Sender<()>),
    /// Connect transit as leader and stream a local file.
    StartSend(SendJob),
    /// Connect transit as follower and receive into `save_path`.
    StartRecv(RecvJob),
}

/// An action by its contents.
pub enum ActionView {
    Send(AppMsgView),
    SendChecked(AppMsgView),
    Emit(EvtView),
    Cancel(async_channel::Sender<()>),
    StartSend {
        id: Seq<char>,
        size: u64,
        path: std::path::PathBuf,
        connector: magic_wormhole::transit::TransitConnector,
        their_hints: magic_wormhole::transit::Hints,
        their_abilities: magic_wormhole::transit::Abilities,
        cancel_rx: async_channel::Receiver<()>,
    },
    StartRecv {
        id: Seq<char>,
        size: u64,
        save_path: std::path::PathBuf,
        connector: magic_wormhole::transit::TransitConnector,
        their_hints: magic_wormhole::transit::Hints,
        their_abilities: magic_wormhole::transit::Abilities,
        cancel_rx: async_channel::Receiver<()>,
    },
}

impl View for Action {
    type V = ActionView;

    open spec fn view(&self) -> ActionView {
        match self {
            Action::Send(m) => ActionView::Send(m@),
            Action::SendChecked(m) => ActionView::SendChecked(m@),
            Action::Emit(e) => ActionView::Emit(e@),
            Action::Cancel(tx) => ActionView::Cancel(*tx),
            Action::StartSend(j) => ActionView::StartSend {
                id: j.id@,
                size: j.size,
                path: j.path,
                connector: j.connector,
                their_hints: j.their_hints,
                their_abilities: j.their_abilities,
                cancel_rx: j.cancel_rx,
            },
            Action::StartRecv(j) => ActionView::StartRecv {
                id: j.id@,
                size: j.size,
                save_path: j.save_path,
                connector: j.connector,
                their_hints: j.their_hints,
                their_abilities: j.their_abilities,
                cancel_rx: j.cancel_rx,
            },
        }
    }
}

pub open spec fn actions_view(a: Seq<Action>) -> Seq<ActionView> {
    a.map_values(|x: Action| x@)
}

/// Result of handling one message from the peer.
pub enum PeerStep {
    /// The peer said goodbye: the session ends normally.
    End,
    /// Carry out these actions and keep going.
    Continue(Vec<Action>),
}

// ------------------------------------------------------------------
// The table of pending transfers and its model
// ------------------------------------------------------------------

pub struct OutgoingView {
    pub id: Seq<char>,
    pub name: Seq<char>,
    pub size: u64,
    /// The file to stream.
    pub path: std::path::PathBuf,
    /// The transit connector, held until the peer accepts.
    pub connector: Option<magic_wormhole::transit::TransitConnector>,
    /// The sender that tells a running transfer task to stop.
    pub cancel_tx: Option<async_channel::Sender<()>>,
}

pub struct IncomingView {
    pub id: Seq<char>,
    pub name: Seq<char>,
    pub size: u64,
    pub mime: Option<Seq<char>>,
    /// Where and how the peer can be reached for this transfer.
    pub their_hints: magic_wormhole::transit::Hints,
    pub their_abilities: magic_wormhole::transit::Abilities,
    /// The sender that tells a running transfer task to stop.
    pub cancel_tx: Option<async_channel::Sender<()>>,
}

pub struct TransfersView {
    pub outgoing: Seq<OutgoingView>,
    pub incoming: Seq<IncomingView>,
}

/// Position of the first `x` in `s`, or -1.
pub open spec fn index_of<A>(s: Seq<A>, x: A) -> int
    decreases s.len(),
{
    if s.len() == 0 {
        -1
    } else if s[0] == x {
        0
    } else {
        let i = index_of(s.drop_first(), x);
        if i < 0 {
            -1
        } else {
            i + 1
        }
    }
}

pub open spec fn out_ids(t: Seq<OutgoingView>) -> Seq<Seq<char>> {
    t.map_values(|o: OutgoingView| o.id)
}

pub open spec fn in_ids(t: Seq<IncomingView>) -> Seq<Seq<char>> {
    t.map_values(|o: IncomingView| o.id)
}

pub open spec fn out_index(t: Seq<OutgoingView>, id: Seq<char>) -> int {
    index_of(out_ids(t), id)
}

pub open spec fn in_index(t: Seq<IncomingView>, id: Seq<char>) -> int {
    index_of(in_ids(t), id)
}

/// The outgoing table without the entry for `id`.
pub open spec fn drop_out(t: Seq<OutgoingView>, id: Seq<char>) -> Seq<OutgoingView> {
    let i = out_index(t, id);
    if i >= 0 {
        t.remove(i)
    } else {
        t
    }
}

/// The incoming table without the entry for `id`.
pub open spec fn drop_in(t: Seq<IncomingView>, id: Seq<char>) -> Seq<IncomingView> {
    let i = in_index(t, id);
    if i >= 0 {
        t.remove(i)
    } else {
        t
    }
}

/// The outgoing table with `o` stored under its id (replacing an entry
/// with that id, else added at the end), as a map insert does.
pub open spec fn put_out(t: Seq<OutgoingView>, o: OutgoingView) -> Seq<OutgoingView> {
    let i = out_index(t, o.id);
    if i >= 0 {
        t.update(i, o)
    } else {
        t.push(o)
    }
}

/// The incoming table with `o` stored under its id.
pub open spec fn put_in(t: Seq<IncomingView>, o: IncomingView) -> Seq<IncomingView> {
    let i = in_index(t, o.id);
    if i >= 0 {
        t.update(i, o)
    } else {
        t.push(o)
    }
}

/// Whether the peer accepting our offer `id` starts a send: the offer is
/// held and still has its connector.
pub open spec fn starts_send(t: TransfersView, id: Seq<char>) -> bool {
    let i = out_index(t.outgoing, id);
    i >= 0 && t.outgoing[i].connector is Some
}

/// The stop actions for an optional cancel sender.
pub open spec fn stop(tx: Option<async_channel::Sender<()>>) -> Seq<ActionView> {
    match tx {
        Some(s) => seq![ActionView::Cancel(s)],
        None => Seq::empty(),
    }
}

/// What the session does with a message from the peer (after the version
/// check, and other than a goodbye): the new table and the actions.
/// `fresh` is the new cancel channel made when an offer is accepted: its
/// sender is kept in the table, its receiver goes to the send job.
pub open spec fn peer_model(
    t: TransfersView,
    m: AppMsgView,
    fresh: (async_channel::Sender<()>, async_channel::Receiver<()>),
) -> (TransfersView, Seq<ActionView>) {
    match m {
        AppMsgView::Text { id, content, ts, .. } => (
            t,
            seq![ActionView::Emit(EvtView::TextReceived { id, content, ts })],
        ),
        AppMsgView::FileOffer { id, name, size, mime, hints, abilities, .. } => (
            TransfersView {
                outgoing: t.outgoing,
                incoming: put_in(
                    t.incoming,
                    IncomingView {
                        id,
                        name,
                        size,
                        mime,
                        their_hints: hints,
                        their_abilities: abilities,
                        cancel_tx: None,
                    },
                ),
            },
            seq![ActionView::Emit(EvtView::FileOffer { id, name, size, mime })],
        ),
        AppMsgView::FileAccept { id, hints, abilities, .. } => {
            let i = out_index(t.outgoing, id);
            if starts_send(t, id) {
                let o = t.outgoing[i];
                (
                    TransfersView {
                        outgoing: t.outgoing.update(
                            i,
                            OutgoingView { connector: None, cancel_tx: Some(fresh.0), ..o },
                        ),
                        incoming: t.incoming,
                    },
                    seq![
                        ActionView::Emit(EvtView::FileAccepted { id }),
                        ActionView::StartSend {
                            id,
                            size: o.size,
                            path: o.path,
                            connector: o.connector.unwrap(),
                            their_hints: hints,
                            their_abilities: abilities,
                            cancel_rx: fresh.1,
                        },
                    ],
                )
            } else {
                (t, Seq::empty())
            }
        },
        AppMsgView::FileReject { id, reason, .. } => (
            TransfersView { outgoing: drop_out(t.outgoing, id), incoming: t.incoming },
            seq![ActionView::Emit(EvtView::FileError { id, message: "对方拒绝: "@ + reason })],
        ),
        AppMsgView::FileCancel { id, .. } => {
            let oi = out_index(t.outgoing, id);
            let ii = in_index(t.incoming, id);
            let stop_out = if oi >= 0 {
                stop(t.outgoing[oi].cancel_tx)
            } else {
                Seq::empty()
            };
            let stop_in = if ii >= 0 {
                stop(t.incoming[ii].cancel_tx)
            } else {
                Seq::empty()
            };
            (
                TransfersView {
                    outgoing: drop_out(t.outgoing, id),
                    incoming: drop_in(t.incoming, id),
                },
                stop_out + stop_in + seq![
                    ActionView::Emit(EvtView::FileCancelled { id, by: Cancelled::Peer }),
                ],
            )
        },
        AppMsgView::FileDone { id, ok, .. } => (
            TransfersView { outgoing: drop_out(t.outgoing, id), incoming: t.incoming },
            seq![
                ActionView::Emit(
                    EvtView::FileDone { id, ok, dir: Direction::Out, save_path: None },
                ),
            ],
        ),
        AppMsgView::Ping { .. } => (t, Seq::empty()),
        AppMsgView::Bye { .. } => (t, Seq::empty()),
    }
}

struct OutgoingPending {
    id: String,
    path: std::path::PathBuf,
    name: String,
    size: u64,
    /// Connector held until the peer accepts; consumed when transit starts.
    connector: Option<magic_wormhole::transit::TransitConnector>,
    /// Sender to the transit task; drop or send to abort.
    cancel_tx: Option<async_channel::Sender<()>>,
}

struct IncomingPending {
    id: String,
    name: String,
    size: u64,
    mime: Option<String>,
    their_hints: magic_wormhole::transit::Hints,
    their_abilities: magic_wormhole::transit::Abilities,
    cancel_tx: Option<async_channel::Sender<()>>,
}

impl OutgoingPending {
    spec fn view(&self) -> OutgoingView {
        OutgoingView {
            id: self.id@,
            name: self.name@,
            size: self.size,
            path: self.path,
            connector: self.connector,
            cancel_tx: self.cancel_tx,
        }
    }
}

impl IncomingPending {
    spec fn view(&self) -> IncomingView {
        IncomingView {
            id: self.id@,
            name: self.name@,
            size: self.size,
            mime: opt_text(self.mime),
            their_hints: self.their_hints,
            their_abilities: self.their_abilities,
            cancel_tx: self.cancel_tx,
        }
    }
}

/// The transfers a session has in flight: offers we made (outgoing) and
/// offers the peer made (incoming), each table keyed by transfer id.
pub struct Transfers {
    outgoing: Vec<OutgoingPending>,
    incoming: Vec<IncomingPending>,
}

pub proof fn lemma_index_of<A>(s: Seq<A>, x: A, i: int)
    requires
        0 <= i <= s.len(),
        i < s.len() ==> s[i] == x,
        forall|k: int| 0 <= k < i ==> #[trigger] s[k] != x,
    ensures
        index_of(s, x) == (if i == s.len() {
            -1
        } else {
            i
        }),
    decreases s.len(),
{
    if s.len() > 0 && i > 0 {
        let t = s.drop_first();
        assert forall|k: int| 0 <= k < i - 1 implies #[trigger] t[k] != x by {
            assert(t[k] == s[k + 1]);
        }
        lemma_index_of(t, x, i - 1);
    }
}

pub proof fn lemma_index_of_facts<A>(s: Seq<A>, x: A)
    ensures
        -1 <= index_of(s, x) < s.len(),
        index_of(s, x) >= 0 ==> s[index_of(s, x)] == x,
        index_of(s, x) == -1 <==> !s.contains(x),
    decreases s.len(),
{
    if s.len() > 0 {
        let t = s.drop_first();
        lemma_index_of_facts(t, x);
        if s[0] != x {
            if t.contains(x) {
                let k = choose|k: int| 0 <= k < t.len() && t[k] == x;
                assert(s[k + 1] == x);
            }
            if s.contains(x) {
                let k = choose|k: int| 0 <= k < s.len() && s[k] == x;
                assert(t[k - 1] == x);
            }
        } else {
            assert(s.contains(x));
        }
    }
}

proof fn lemma_no_dup_remove<A>(s: Seq<A>, i: int)
    requires
        s.no_duplicates(),
        0 <= i < s.len(),
    ensures
        s.remove(i).no_duplicates(),
        !s.remove(i).contains(s[i]),
{
    let r = s.remove(i);
    assert forall|a: int, b: int| 0 <= a < r.len() && 0 <= b < r.len() && a != b implies r[a]
        != r[b] by {
        let a2 = if a < i {
            a
        } else {
            a + 1
        };
        let b2 = if b < i {
            b
        } else {
            b + 1
        };
        assert(r[a] == s[a2] && r[b] == s[b2]);
    }
    if r.contains(s[i]) {
        let k = choose|k: int| 0 <= k < r.len() && r[k] == s[i];
        let k2 = if k < i {
            k
        } else {
            k + 1
        };
        assert(s[k2] == s[i]);
    }
}

impl Transfers {
    pub closed spec fn view(&self) -> TransfersView {
        TransfersView {
            outgoing: self.outgoing@.map_values(|o: OutgoingPending| o.view()),
            incoming: self.incoming@.map_values(|o: IncomingPending| o.view()),
        }
    }

    /// Each table holds at most one entry per transfer id.
    pub closed spec fn wf(&self) -> bool {
        &&& out_ids(self.view().outgoing).no_duplicates()
        &&& in_ids(self.view().incoming).no_duplicates()
    }

    /// A well-formed table holds one entry per transfer id on each side,
    /// so the laws stated over `ids_unique` apply to every session's table.
    pub proof fn lemma_wf_ids_unique(&self)
        requires
            self.wf(),
        ensures
            crate::laws::ids_unique(self@),
    {
    }

    /// No transfers in flight.
    pub fn new() -> (r: Transfers)
        ensures
            r.wf(),
            r@.outgoing.len() == 0,
            r@.incoming.len() == 0,
    {
        let r = Transfers { outgoing: Vec::new(), incoming: Vec::new() };
        assert(out_ids(r@.outgoing) =~= Seq::<Seq<char>>::empty());
        assert(in_ids(r@.incoming) =~= Seq::<Seq<char>>::empty());
        r
    }

    fn find_out(&self, id: &str) -> (r: Option<usize>)
        ensures
            match r {
                Some(i) => i < self.outgoing@.len() && i == out_index(self@.outgoing, id@),
                None => out_index(self@.outgoing, id@) == -1,
            },
    {
        let ghost ids = out_ids(self@.outgoing);
        let mut i: usize = 0;
        while i < self.outgoing.len()
            invariant
                0 <= i <= self.outgoing@.len(),
                ids == out_ids(self@.outgoing),
                ids.len() == self.outgoing@.len(),
                forall|k: int| 0 <= k < i ==> #[trigger] ids[k] != id@,
            decreases self.outgoing@.len() - i,
        {
            if crate::text::same_text(self.outgoing[i].id.as_str(), id) {
                proof {
                    assert(ids[i as int] == self.outgoing@[i as int].id@);
                    lemma_index_of(ids, id@, i as int);
                }
                return Some(i);
            }
            assert(ids[i as int] == self.outgoing@[i as int].id@);
            i = i + 1;
        }
        proof {
            lemma_index_of(ids, id@, i as int);
        }
        None
    }

    fn find_in(&self, id: &str) -> (r: Option<usize>)
        ensures
            match r {
                Some(i) => i < self.incoming@.len() && i == in_index(self@.incoming, id@),
                None => in_index(self@.incoming, id@) == -1,
            },
    {
        let ghost ids = in_ids(self@.incoming);
        let mut i: usize = 0;
        while i < self.incoming.len()
            invariant
                0 <= i <= self.incoming@.len(),
                ids == in_ids(self@.incoming),
                ids.len() == self.incoming@.len(),
                forall|k: int| 0 <= k < i ==> #[trigger] ids[k] != id@,
            decreases self.incoming@.len() - i,
        {
            if crate::text::same_text(self.incoming[i].id.as_str(), id) {
                proof {
                    assert(ids[i as int] == self.incoming@[i as int].id@);
                    lemma_index_of(ids, id@, i as int);
                }
                return Some(i);
            }
            assert(ids[i as int] == self.incoming@[i as int].id@);
            i = i + 1;
        }
        proof {
            lemma_index_of(ids, id@, i as int);
        }
        None
    }

    /// Removes the outgoing entry for `id`, if any, handing back its
    /// cancel sender.
    fn remove_out(&mut self, id: &str) -> (r: Option<async_channel::Sender<()>>)
        requires
            old(self).wf(),
        ensures
            final(self).wf(),
            final(self)@.outgoing == drop_out(old(self)@.outgoing, id@),
            final(self)@.incoming == old(self)@.incoming,
            r == (if out_index(old(self)@.outgoing, id@) >= 0 {
                old(self)@.outgoing[out_index(old(self)@.outgoing, id@)].cancel_tx
            } else {
                None
            }),
    {
        match self.find_out(id) {
            None => None,
            Some(i) => {
                let ghost before = self@;
                let o = self.outgoing.remove(i);
                proof {
                    assert(self@.outgoing =~= before.outgoing.remove(i as int));
                    assert(out_ids(self@.outgoing) =~= out_ids(before.outgoing).remove(i as int));
                    lemma_no_dup_remove(out_ids(before.outgoing), i as int);
                    assert(self@.incoming =~= before.incoming);
                }
                o.cancel_tx
            },
        }
    }

    /// Removes the incoming entry for `id`, if any, handing back its
    /// cancel sender.
    fn remove_in(&mut self, id: &str) -> (r: Option<async_channel::Sender<()>>)
        requires
            old(self).wf(),
        ensures
            final(self).wf(),
            final(self)@.incoming == drop_in(old(self)@.incoming, id@),
            final(self)@.outgoing == old(self)@.outgoing,
            r == (if in_index(old(self)@.incoming, id@) >= 0 {
                old(self)@.incoming[in_index(old(self)@.incoming, id@)].cancel_tx
            } else {
                None
            }),
    {
        match self.find_in(id) {
            None => None,
            Some(i) => {
                let ghost before = self@;
                let o = self.incoming.remove(i);
                proof {
                    assert(self@.incoming =~= before.incoming.remove(i as int));
                    assert(in_ids(self@.incoming) =~= in_ids(before.incoming).remove(i as int));
                    lemma_no_dup_remove(in_ids(before.incoming), i as int);
                    assert(self@.outgoing =~= before.outgoing);
                }
                o.cancel_tx
            },
        }
    }

    /// Stores an incoming offer under its id, replacing an earlier one with
    /// the same id.
    fn put_incoming(&mut self, p: IncomingPending)
        requires
            old(self).wf(),
        ensures
            final(self).wf(),
            final(self)@.incoming == put_in(old(self)@.incoming, p.view()),
            final(self)@.outgoing == old(self)@.outgoing,
    {
        let ghost before = self@;
        let ghost pv = p.view();
        match self.find_in(p.id.as_str()) {
            Some(i) => {
                self.incoming.set(i, p);
                proof {
                    lemma_index_of_facts(in_ids(before.incoming), pv.id);
                    assert(self@.incoming =~= before.incoming.update(i as int, pv));
                    assert(in_ids(self@.incoming) =~= in_ids(before.incoming));
                    assert(self@.outgoing =~= before.outgoing);
                }
            },
            None => {
                self.incoming.push(p);
                proof {
                    lemma_index_of_facts(in_ids(before.incoming), pv.id);
                    assert(self@.incoming =~= before.incoming.push(pv));
                    assert(in_ids(self@.incoming) =~= in_ids(before.incoming).push(pv.id));
                    assert(self@.outgoing =~= before.outgoing);
                }
            },
        }
    }

    /// Stores an outgoing offer under its id, replacing an earlier one with
    /// the same id.
    fn put_outgoing(&mut self, p: OutgoingPending)
        requires
            old(self).wf(),
        ensures
            final(self).wf(),
            final(self)@.outgoing == put_out(old(self)@.outgoing, p.view()),
            final(self)@.incoming == old(self)@.incoming,
    {
        let ghost before = self@;
        let ghost pv = p.view();
        match self.find_out(p.id.as_str()) {
            Some(i) => {
                self.outgoing.set(i, p);
                proof {
                    lemma_index_of_facts(out_ids(before.outgoing), pv.id);
                    assert(self@.outgoing =~= before.outgoing.update(i as int, pv));
                    assert(out_ids(self@.outgoing) =~= out_ids(before.outgoing));
                    assert(self@.incoming =~= before.incoming);
                }
            },
            None => {
                self.outgoing.push(p);
                proof {
                    lemma_index_of_facts(out_ids(before.outgoing), pv.id);
                    assert(self@.outgoing =~= before.outgoing.push(pv));
                    assert(out_ids(self@.outgoing) =~= out_ids(before.outgoing).push(pv.id));
                    assert(self@.incoming =~= before.incoming);
                }
            },
        }
    }

    /// Peer accepted our offer `id`: when we still hold its connector, hand
    /// it to a new send job and arm the entry's cancel sender.
    fn start_send(
        &mut self,
        id: String,
        their_hints: magic_wormhole::transit::Hints,
        their_abilities: magic_wormhole::transit::Abilities,
    ) -> (r: Vec<Action>)
        requires
            old(self).wf(),
        ensures
            final(self).wf(),
            exists|fresh: (async_channel::Sender<()>, async_channel::Receiver<()>)|
                (starts_send(old(self)@, id@) ==> cancel_pair(fresh.0, fresh.1)) && (
                final(self)@, actions_view(r@)) == #[trigger] peer_model(
                    old(self)@,
                    AppMsgView::FileAccept {
                        v: PROTOCOL_VERSION,
                        id: id@,
                        hints: their_hints,
                        abilities: their_abilities,
                    },
                    fresh,
                ),
    {
        let ghost before = self@;
        let ghost m = AppMsgView::FileAccept {
            v: PROTOCOL_VERSION,
            id: id@,
            hints: their_hints,
            abilities: their_abilities,
        };
        let ghost any: (async_channel::Sender<()>, async_channel::Receiver<()>) = arbitrary();
        let mut actions: Vec<Action> = Vec::new();
        match self.find_out(id.as_str()) {
            None => {
                assert(actions_view(actions@) =~= Seq::<ActionView>::empty());
                assert((self@, actions_view(actions@)) == peer_model(before, m, any));
                actions
            },
            Some(i) => {
                if self.outgoing[i].connector.is_none() {
                    assert(actions_view(actions@) =~= Seq::<ActionView>::empty());
                    assert((self@, actions_view(actions@)) == peer_model(before, m, any));
                    return actions;
                }
                let mut o = self.outgoing.remove(i);
                let ghost o0 = o.view();
                let connector = o.connector.take().unwrap();
                let (cancel_tx, cancel_rx) = cancel_channel();
                let ghost fresh = (cancel_tx, cancel_rx);
                o.cancel_tx = Some(cancel_tx);
                let ghost ov = o.view();
                let job = SendJob {
                    id: id.clone(),
                    connector,
                    their_abilities,
                    their_hints,
                    path: copy_path(&o.path),
                    size: o.size,
                    cancel_rx,
                };
                self.outgoing.insert(i, o);
                proof {
                    assert(self@.outgoing =~= before.outgoing.update(i as int, ov));
                    assert(out_ids(self@.outgoing) =~= out_ids(before.outgoing));
                    assert(self@.incoming =~= before.incoming);
                }
                actions.push(Action::Emit(Evt::FileAccepted { id }));
                actions.push(Action::StartSend(job));
                assert(o0 == before.outgoing[i as int]);
                assert(ov == OutgoingView { connector: None, cancel_tx: Some(fresh.0), ..o0 });
                assert(actions_view(actions@) =~= peer_model(before, m, fresh).1);
                assert((self@, actions_view(actions@)) == peer_model(before, m, fresh));
                actions
            },
        }
    }

    /// Handles one message from the peer.
    ///
    /// A message of another protocol version is an error that ends the
    /// session; a goodbye ends it normally; every other message updates the
    /// tables and yields actions as `peer_model` says.
    pub fn receive(&mut self, msg: AppMsg) -> (r: Result<PeerStep, CoreError>)
        requires
            old(self).wf(),
        ensures
            final(self).wf(),
            msg.spec_version() != PROTOCOL_VERSION ==> (r matches Err(CoreError::Protocol(_))
                && final(self)@ == old(self)@),
            msg.spec_version() == PROTOCOL_VERSION && msg is Bye ==> (r matches Ok(PeerStep::End)
                && final(self)@ == old(self)@),
            msg.spec_version() == PROTOCOL_VERSION && !(msg is Bye) ==> (r matches Ok(
                PeerStep::Continue(a),
            ) && exists|fresh: (async_channel::Sender<()>, async_channel::Receiver<()>)|
                (msg@ matches AppMsgView::FileAccept { id, .. } && starts_send(old(self)@, id)
                    ==> cancel_pair(fresh.0, fresh.1)) && (final(self)@, actions_view(a@))
                == #[trigger] peer_model(
                    old(self)@,
                    msg@,
                    fresh,
                )),
    {
        let ghost before = self@;
        let ghost mv = msg@;
        let ghost any: (async_channel::Sender<()>, async_channel::Receiver<()>) = arbitrary();
        match msg.check_version() {
            Err(e) => {
                return Err(e);
            },
            Ok(()) => {},
        }
        let mut actions: Vec<Action> = Vec::new();
        match msg {
            AppMsg::Bye { .. } => {
                return Ok(PeerStep::End);
            },
            AppMsg::Ping { .. } => {
                assert(actions_view(actions@) =~= Seq::<ActionView>::empty());
                assert(actions_view(actions@) =~= peer_model(before, mv, any).1);
            },
            AppMsg::Text { id, content, ts, .. } => {
                actions.push(Action::Emit(Evt::TextReceived { id, content, ts }));
                assert(actions_view(actions@) =~= peer_model(before, mv, any).1);
            },
            AppMsg::FileOffer { id, name, size, mime, hints, abilities, .. } => {
                let pending = IncomingPending {
                    id: id.clone(),
                    name: name.clone(),
                    size,
                    mime: clone_opt_text(&mime),
                    their_hints: hints,
                    their_abilities: abilities,
                    cancel_tx: None,
                };
                self.put_incoming(pending);
                actions.push(Action::Emit(Evt::FileOffer { id, name, size, mime }));
                assert(actions_view(actions@) =~= peer_model(before, mv, any).1);
            },
            AppMsg::FileAccept { id, hints, abilities, .. } => {
                let a = self.start_send(id, hints, abilities);
                return Ok(PeerStep::Continue(a));
            },
            AppMsg::FileReject { id, reason, .. } => {
                let _ = self.remove_out(id.as_str());
                let message = join2("对方拒绝: ", reason.as_str());
                actions.push(Action::Emit(Evt::FileError { id, message }));
                assert(actions_view(actions@) =~= peer_model(before, mv, any).1);
            },
            AppMsg::FileCancel { id, .. } => {
                let tx_out = self.remove_out(id.as_str());
                let ghost mid = self@;
                let tx_in = self.remove_in(id.as_str());
                let ghost stop_out = stop(tx_out);
                if let Some(tx) = tx_out {
                    actions.push(Action::Cancel(tx));
                }
                assert(actions_view(actions@) =~= stop_out);
                if let Some(tx) = tx_in {
                    actions.push(Action::Cancel(tx));
                }
                actions.push(Action::Emit(Evt::FileCancelled { id, by: Cancelled::Peer }));
                assert(mid.incoming == before.incoming);
                assert(actions_view(actions@) =~= peer_model(before, mv, any).1);
            },
            AppMsg::FileDone { id, ok, .. } => {
                let _ = self.remove_out(id.as_str());
                actions.push(
                    Action::Emit(Evt::FileDone { id, ok, dir: Direction::Out, save_path: None }),
                );
                assert(actions_view(actions@) =~= peer_model(before, mv, any).1);
            },
        }
        assert((self@, actions_view(actions@)) == peer_model(before, mv, any));
        Ok(PeerStep::Continue(actions))
    }
}

/// A copy of an optional string.
fn clone_opt_text(o: &Option<String>) -> (r: Option<String>)
    ensures
        opt_text(r) == opt_text(*o),
{
    match o {
        Some(s) => Some(s.clone()),
        None => None,
    }
}

// ------------------------------------------------------------------
// Local commands
// ------------------------------------------------------------------

/// What rejecting the incoming offer `id` with `reason` does.
pub open spec fn reject_model(t: TransfersView, id: Seq<char>, reason: Seq<char>) -> (TransfersView, Seq<ActionView>) {
    if in_index(t.incoming, id) >= 0 {
        (
            TransfersView { outgoing: t.outgoing, incoming: drop_in(t.incoming, id) },
            seq![
                ActionView::Send(AppMsgView::FileReject { v: PROTOCOL_VERSION, id, reason }),
                ActionView::Emit(EvtView::FileCancelled { id, by: Cancelled::Local }),
            ],
        )
    } else {
        (t, Seq::empty())
    }
}

/// What cancelling the transfer `id` locally does: the outgoing entry
/// when there is one, else the incoming entry.
pub open spec fn cancel_model(t: TransfersView, id: Seq<char>) -> (TransfersView, Seq<ActionView>) {
    let oi = out_index(t.outgoing, id);
    let ii = in_index(t.incoming, id);
    let tell = seq![
        ActionView::Send(AppMsgView::FileCancel { v: PROTOCOL_VERSION, id }),
        ActionView::Emit(EvtView::FileCancelled { id, by: Cancelled::Local }),
    ];
    if oi >= 0 {
        (
            TransfersView { outgoing: drop_out(t.outgoing, id), incoming: t.incoming },
            stop(t.outgoing[oi].cancel_tx) + tell,
        )
    } else if ii >= 0 {
        (
            TransfersView { outgoing: t.outgoing, incoming: drop_in(t.incoming, id) },
            stop(t.incoming[ii].cancel_tx) + tell,
        )
    } else {
        (t, Seq::empty())
    }
}

/// The longest text (in UTF-8 bytes) sent over the mailbox.
pub open spec fn max_text_bytes() -> nat {
    (MAX_MAILBOX_PAYLOAD / 2) as nat
}

/// What sending `content` with the given id and timestamp does.
pub open spec fn text_model(content: Seq<char>, id: Seq<char>, ts: u64) -> Seq<ActionView> {
    if (vstd::utf8::encode_utf8(content).len() as usize) > max_text_bytes() {
        seq![
            ActionView::Emit(
                EvtView::Error {
                    code: "text_too_long"@,
                    message: "text exceeds "@ + digits_in_base(max_text_bytes(), 10)
                        + " bytes; not yet supported in v0.1"@,
                },
            ),
        ]
    } else {
        seq![
            ActionView::SendChecked(AppMsgView::Text { v: PROTOCOL_VERSION, id, content, ts }),
            ActionView::Emit(EvtView::TextSent { id, content, ts }),
        ]
    }
}

/// The actions of sending a chat text under `id` at time `ts` (ms).
pub fn text_actions(content: String, id: String, ts: u64) -> (r: Vec<Action>)
    ensures
        actions_view(r@) == text_model(content@, id@, ts),
{
    let mut r: Vec<Action> = Vec::new();
    let limit = MAX_MAILBOX_PAYLOAD / 2;
    let bytes = content.as_str().len();
    if bytes > limit {
        let n = decimal(limit as u64);
        let message = join3("text exceeds ", n.as_str(), " bytes; not yet supported in v0.1");
        r.push(Action::Emit(Evt::Error { code: "text_too_long".to_owned(), message }));
        assert(actions_view(r@) =~= text_model(content@, id@, ts));
        return r;
    }
    let id2 = id.clone();
    let content2 = content.clone();
    r.push(Action::SendChecked(AppMsg::Text { v: PROTOCOL_VERSION, id, content, ts }));
    r.push(Action::Emit(Evt::TextSent { id: id2, content: content2, ts }));
    assert(actions_view(r@) =~= text_model(content@, id@, ts));
    r
}

/// The actions of sending a chat text, with a fresh id (the clock's
/// nanoseconds in hex) and the current time (the clock's milliseconds).
pub fn send_text(content: String) -> (r: Vec<Action>)
    ensures
        exists|n: nat, c: u128|
            actions_view(r@) == #[trigger] text_model(content@, digits_in_base(n, 16), millis_of(c)),
{
    let id = make_id();
    let ts = now_ms();
    let ghost n = choose|n: nat| id@ == digits_in_base(n, 16);
    let ghost c = choose|c: u128| ts == millis_of(c);
    let r = text_actions(content, id, ts);
    assert(actions_view(r@) == text_model(content@, digits_in_base(n, 16), millis_of(c)));
    r
}

/// What checking a picked path gives: the name and guessed MIME type to
/// offer, or an error for a directory.
pub open spec fn offer_facts_model(is_dir: bool, file_name: Option<Seq<char>>) -> Result<(Seq<char>, Option<Seq<char>>), Seq<char>> {
    if is_dir {
        Err("v0.1 does not support directories; pick a single file"@)
    } else {
        let name = match file_name {
            Some(n) => n,
            None => "file"@,
        };
        Ok((name, spec_mime_guess(name)))
    }
}

/// Checks a path the user picked for sending: directories are refused;
/// the offered name is the file name (`file` when it has none), with its
/// guessed MIME type.
pub fn describe_offer(is_dir: bool, file_name: Option<String>) -> (r: Result<(String, Option<String>), CoreError>)
    ensures
        match r {
            Ok((n, m)) => offer_facts_model(is_dir, opt_text(file_name)) == Ok::<
                (Seq<char>, Option<Seq<char>>),
                Seq<char>,
            >((n@, opt_text(m))),
            Err(CoreError::Other(msg)) => offer_facts_model(is_dir, opt_text(file_name)) == Err::<
                (Seq<char>, Option<Seq<char>>),
                Seq<char>,
            >(msg@),
            Err(_) => false,
        },
{
    if is_dir {
        return Err(
            CoreError::Other("v0.1 does not support directories; pick a single file".to_owned()),
        );
    }
    let name = match file_name {
        Some(n) => n,
        None => "file".to_owned(),
    };
    let mime = mime_guess(name.as_str());
    Ok((name, mime))
}

/// The offer message for a file, advertising `connector`'s hints.
pub fn offer_message(
    id: &String,
    name: &String,
    size: u64,
    mime: &Option<String>,
    connector: &magic_wormhole::transit::TransitConnector,
) -> (r: AppMsg)
    ensures
        r@ matches AppMsgView::FileOffer { v, id: i, name: n, size: z, mime: m, .. } && v
            == PROTOCOL_VERSION && i == id@ && n == name@ && z == size && m == opt_text(*mime),
{
    AppMsg::FileOffer {
        v: PROTOCOL_VERSION,
        id: id.clone(),
        name: name.clone(),
        size,
        mime: clone_opt_text(mime),
        hints: our_hints(connector),
        abilities: our_abilities(connector),
    }
}

/// The reply accepting the peer's offer `id`, advertising `connector`'s
/// hints.
pub fn accept_message(id: &String, connector: &magic_wormhole::transit::TransitConnector) -> (r: AppMsg)
    ensures
        r@ matches AppMsgView::FileAccept { v, id: i, .. } && v == PROTOCOL_VERSION && i == id@,
{
    AppMsg::FileAccept {
        v: PROTOCOL_VERSION,
        id: id.clone(),
        hints: our_hints(connector),
        abilities: our_abilities(connector),
    }
}

impl Transfers {
    /// Handles the local rejection of the peer's offer `id`.
    pub fn reject(&mut self, id: String, reason: String) -> (r: Vec<Action>)
        requires
            old(self).wf(),
        ensures
            final(self).wf(),
            (final(self)@, actions_view(r@)) == reject_model(old(self)@, id@, reason@),
    {
        let ghost before = self@;
        let mut r: Vec<Action> = Vec::new();
        if self.find_in(id.as_str()).is_none() {
            assert(actions_view(r@) =~= Seq::<ActionView>::empty());
            return r;
        }
        let _ = self.remove_in(id.as_str());
        let id2 = id.clone();
        r.push(Action::Send(AppMsg::FileReject { v: PROTOCOL_VERSION, id, reason }));
        r.push(Action::Emit(Evt::FileCancelled { id: id2, by: Cancelled::Local }));
        assert(actions_view(r@) =~= reject_model(before, id@, reason@).1);
        r
    }

    /// Handles the local cancellation of transfer `id` (ours or the
    /// peer's).
    pub fn cancel(&mut self, id: String) -> (r: Vec<Action>)
        requires
            old(self).wf(),
        ensures
            final(self).wf(),
            (final(self)@, actions_view(r@)) == cancel_model(old(self)@, id@),
    {
        let ghost before = self@;
        let mut r: Vec<Action> = Vec::new();
        let tx = if self.find_out(id.as_str()).is_some() {
            self.remove_out(id.as_str())
        } else if self.find_in(id.as_str()).is_some() {
            self.remove_in(id.as_str())
        } else {
            assert(actions_view(r@) =~= Seq::<ActionView>::empty());
            return r;
        };
        let ghost stops = stop(tx);
        if let Some(t) = tx {
            r.push(Action::Cancel(t));
        }
        assert(actions_view(r@) =~= stops);
        let id2 = id.clone();
        r.push(Action::Send(AppMsg::FileCancel { v: PROTOCOL_VERSION, id }));
        r.push(Action::Emit(Evt::FileCancelled { id: id2, by: Cancelled::Local }));
        assert(actions_view(r@) =~= cancel_model(before, id@).1);
        r
    }

    /// Ends the session: a goodbye to the peer. The tables, and with them
    /// every cancel sender, are dropped, so running transfer tasks stop.
    pub fn close(self) -> (r: Vec<Action>)
        ensures
            actions_view(r@) == seq![ActionView::Send(AppMsgView::Bye { v: PROTOCOL_VERSION })],
    {
        let mut r: Vec<Action> = Vec::new();
        r.push(Action::Send(AppMsg::Bye { v: PROTOCOL_VERSION }));
        assert(actions_view(r@) =~= seq![ActionView::Send(AppMsgView::Bye { v: PROTOCOL_VERSION })]);
        r
    }

    /// Records the offer `id` just sent to the peer, keeping the connector
    /// until the peer accepts, and gives the event for the UI.
    pub fn record_offer(
        &mut self,
        id: String,
        path: std::path::PathBuf,
        name: String,
        size: u64,
        connector: magic_wormhole::transit::TransitConnector,
    ) -> (e: Evt)
        requires
            old(self).wf(),
        ensures
            final(self).wf(),
            final(self)@.outgoing == put_out(
                old(self)@.outgoing,
                OutgoingView {
                    id: id@,
                    name: name@,
                    size,
                    path,
                    connector: Some(connector),
                    cancel_tx: None,
                },
            ),
            final(self)@.incoming == old(self)@.incoming,
            e@ == (EvtView::FileOfferSent { id: id@, name: name@, size }),
    {
        let p = OutgoingPending {
            id: id.clone(),
            path,
            name: name.clone(),
            size,
            connector: Some(connector),
            cancel_tx: None,
        };
        self.put_outgoing(p);
        Evt::FileOfferSent { id, name, size }
    }

    /// The name the peer gave its offer `id`, if we hold that offer.
    pub fn incoming_name(&self, id: &str) -> (r: Option<String>)
        ensures
            r is Some <==> in_index(self@.incoming, id@) >= 0,
            r matches Some(n) ==> n@ == self@.incoming[in_index(self@.incoming, id@)].name,
    {
        match self.find_in(id) {
            None => None,
            Some(i) => Some(self.incoming[i].name.clone()),
        }
    }

    /// Starts receiving the peer's offer `id` into `save_path`: arms the
    /// entry's cancel sender and gives the receive job; `None` when the
    /// offer is not (or no longer) held.
    pub fn start_receive(
        &mut self,
        id: &str,
        connector: magic_wormhole::transit::TransitConnector,
        save_path: std::path::PathBuf,
    ) -> (r: Option<RecvJob>)
        requires
            old(self).wf(),
        ensures
            final(self).wf(),
            final(self)@.outgoing == old(self)@.outgoing,
            in_index(old(self)@.incoming, id@) < 0 ==> (r is None && final(self)@ == old(self)@),
            in_index(old(self)@.incoming, id@) >= 0 ==> ({
                let i = in_index(old(self)@.incoming, id@);
                let o = old(self)@.incoming[i];
                &&& final(self)@.incoming[i].cancel_tx is Some
                &&& final(self)@.incoming == old(self)@.incoming.update(
                    i,
                    IncomingView { cancel_tx: final(self)@.incoming[i].cancel_tx, ..o },
                )
                &&& r matches Some(j) && j.id@ == id@ && j.size == o.size && j.save_path
                    == save_path && j.connector == connector && j.their_hints == o.their_hints
                    && j.their_abilities == o.their_abilities && cancel_pair(
                    final(self)@.incoming[i].cancel_tx.unwrap(),
                    j.cancel_rx,
                )
            }),
    {
        let ghost before = self@;
        match self.find_in(id) {
            None => None,
            Some(i) => {
                let mut p = self.incoming.remove(i);
                let (cancel_tx, cancel_rx) = cancel_channel();
                p.cancel_tx = Some(cancel_tx);
                let job = RecvJob {
                    id: p.id.clone(),
                    connector,
                    their_abilities: p.their_abilities,
                    their_hints: copy_hints(&p.their_hints),
                    save_path,
                    size: p.size,
                    cancel_rx,
                };
                let ghost pv = p.view();
                self.incoming.insert(i, p);
                proof {
                    lemma_index_of_facts(in_ids(before.incoming), id@);
                    assert(self@.incoming =~= before.incoming.update(i as int, pv));
                    assert(in_ids(self@.incoming) =~= in_ids(before.incoming));
                    assert(self@.outgoing =~= before.outgoing);
                }
                Some(job)
            },
        }
    }
}

/// What the host does next with a local command.
pub enum CommandStep {
    /// Carry out these actions.
    Run(Vec<Action>),
    /// Offer the file at `path`: read its metadata, open a transit
    /// connector, then `describe_offer`, `offer_message` and `record_offer`.
    Offer(std::path::PathBuf),
    /// Accept the held offer `id`: open a transit connector, send
    /// `accept_message`, pick a free name in `save_dir`, then
    /// `start_receive`.
    Accept { id: String, save_dir: std::path::PathBuf },
    /// Say goodbye (`close`) and end the session.
    Close,
}

impl Transfers {
    /// Dispatches a command from the UI once the session is connected. A
    /// second code is an `InvalidState` error; text, rejection and
    /// cancellation are decided here; an offer and an acceptance of a held
    /// offer need the host's I/O first; acceptance of an offer not held is
    /// ignored.
    pub fn command(&mut self, cmd: Cmd) -> (r: Result<CommandStep, CoreError>)
        requires
            old(self).wf(),
        ensures
            final(self).wf(),
            cmd is JoinCode ==> (r matches Err(CoreError::InvalidState) && final(self)@ == old(self)@),
            cmd matches Cmd::SendText(c) ==> (r matches Ok(CommandStep::Run(a)) && final(self)@
                == old(self)@ && exists|n: nat, t: u128|
                actions_view(a@) == #[trigger] text_model(c@, digits_in_base(n, 16), millis_of(t))),
            cmd matches Cmd::SendFile { path } ==> (r == Ok::<CommandStep, CoreError>(CommandStep::Offer(path))
                && final(self)@ == old(self)@),
            cmd matches Cmd::AcceptFile { id, save_dir } ==> final(self)@ == old(self)@ && (if in_index(
                old(self)@.incoming,
                id@,
            ) >= 0 {
                r == Ok::<CommandStep, CoreError>(CommandStep::Accept { id, save_dir })
            } else {
                r matches Ok(CommandStep::Run(a)) && a@.len() == 0
            }),
            cmd matches Cmd::RejectFile { id, reason } ==> (r matches Ok(CommandStep::Run(a)) && (
            final(self)@, actions_view(a@)) == reject_model(old(self)@, id@, reason@)),
            cmd matches Cmd::CancelFile { id } ==> (r matches Ok(CommandStep::Run(a)) && (
            final(self)@, actions_view(a@)) == cancel_model(old(self)@, id@)),
            cmd is Close ==> (r matches Ok(CommandStep::Close) && final(self)@ == old(self)@),
    {
        match cmd {
            Cmd::JoinCode(_) => Err(CoreError::InvalidState),
            Cmd::SendText(c) => Ok(CommandStep::Run(send_text(c))),
            Cmd::SendFile { path } => Ok(CommandStep::Offer(path)),
            Cmd::AcceptFile { id, save_dir } => {
                if self.find_in(id.as_str()).is_some() {
                    Ok(CommandStep::Accept { id, save_dir })
                } else {
                    Ok(CommandStep::Run(Vec::new()))
                }
            },
            Cmd::RejectFile { id, reason } => Ok(CommandStep::Run(self.reject(id, reason))),
            Cmd::CancelFile { id } => Ok(CommandStep::Run(self.cancel(id))),
            Cmd::Close => Ok(CommandStep::Close),
        }
    }
}

// ------------------------------------------------------------------
// Transfer task outcomes and other events
// ------------------------------------------------------------------

/// What a finished transfer task asks for.
pub enum TaskReport {
    /// A message for the session loop to send to the peer (a failure to
    /// send ends the session).
    Outbox(AppMsg),
    /// An event for the UI.
    Emit(Evt),
}

pub enum TaskReportView {
    Outbox(AppMsgView),
    Emit(EvtView),
}

impl View for TaskReport {
    type V = TaskReportView;

    open spec fn view(&self) -> TaskReportView {
        match self {
            TaskReport::Outbox(m) => TaskReportView::Outbox(m@),
            TaskReport::Emit(e) => TaskReportView::Emit(e@),
        }
    }
}

pub open spec fn reports_view(r: Seq<TaskReport>) -> Seq<TaskReportView> {
    r.map_values(|x: TaskReport| x@)
}

/// A failed transfer: tell the peer to stop and show the error.
pub open spec fn failed_model(id: Seq<char>, e: CoreError) -> Seq<TaskReportView> {
    seq![
        TaskReportView::Outbox(AppMsgView::FileCancel { v: PROTOCOL_VERSION, id }),
        TaskReportView::Emit(EvtView::FileError { id, message: e.spec_english() }),
    ]
}

fn failed_reports(id: String, e: CoreError) -> (r: Vec<TaskReport>)
    requires
        !e.wraps_outside(),
    ensures
        reports_view(r@) == failed_model(id@, e),
{
    let mut r: Vec<TaskReport> = Vec::new();
    let message = e.message();
    let id2 = id.clone();
    r.push(TaskReport::Outbox(AppMsg::FileCancel { v: PROTOCOL_VERSION, id }));
    r.push(TaskReport::Emit(Evt::FileError { id: id2, message }));
    assert(reports_view(r@) =~= failed_model(id@, e));
    r
}

fn failed_reports_any(id: String, e: CoreError) -> (r: Vec<TaskReport>)
    ensures
        reports_view(r@).len() == 2,
        reports_view(r@)[0] == TaskReportView::Outbox(AppMsgView::FileCancel { v: PROTOCOL_VERSION, id: id@ }),
        reports_view(r@)[1] matches TaskReportView::Emit(EvtView::FileError { id: i, message: m })
            && i == id@ && m.take(e.spec_english().len() as int) == e.spec_english(),
        !e.wraps_outside() ==> reports_view(r@) == failed_model(id@, e),
{
    let mut r: Vec<TaskReport> = Vec::new();
    let message = e.message();
    let id2 = id.clone();
    r.push(TaskReport::Outbox(AppMsg::FileCancel { v: PROTOCOL_VERSION, id }));
    r.push(TaskReport::Emit(Evt::FileError { id: id2, message }));
    proof {
        if !e.wraps_outside() {
            assert(message@.take(e.spec_english().len() as int) =~= message@);
            assert(reports_view(r@) =~= failed_model(id@, e));
        }
    }
    r
}

/// What the session reports when the task streaming `id` (of `size`
/// bytes) to the peer ends: a final progress event on success; on failure
/// a cancel to the peer and the error for the UI.
pub fn send_finished(id: String, size: u64, outcome: Result<(), CoreError>) -> (r: Vec<TaskReport>)
    ensures
        outcome is Ok ==> reports_view(r@) == seq![
            TaskReportView::Emit(
                EvtView::FileProgress { id: id@, bytes: size, total: size, dir: Direction::Out },
            ),
        ],
        outcome matches Err(e) ==> {
            &&& reports_view(r@).len() == 2
            &&& reports_view(r@)[0] == TaskReportView::Outbox(AppMsgView::FileCancel { v: PROTOCOL_VERSION, id: id@ })
            &&& reports_view(r@)[1] matches TaskReportView::Emit(EvtView::FileError { id: i, message: m })
                && i == id@ && m.take(e.spec_english().len() as int) == e.spec_english()
            &&& !e.wraps_outside() ==> reports_view(r@) == failed_model(id@, e)
        },
{
    match outcome {
        Ok(()) => {
            let mut r: Vec<TaskReport> = Vec::new();
            r.push(
                TaskReport::Emit(
                    Evt::FileProgress { id, bytes: size, total: size, dir: Direction::Out },
                ),
            );
            assert(reports_view(r@) =~= seq![
                TaskReportView::Emit(
                    EvtView::FileProgress { id: id@, bytes: size, total: size, dir: Direction::Out },
                ),
            ]);
            r
        },
        Err(e) => failed_reports_any(id, e),
    }
}

/// What the session reports when the task receiving `id` into
/// `save_path` ends: on success a completion message to the peer and the
/// done event; on failure a cancel to the peer and the error for the UI.
pub fn recv_finished(id: String, save_path: String, outcome: Result<(), CoreError>) -> (r: Vec<TaskReport>)
    ensures
        outcome is Ok ==> reports_view(r@) == seq![
            TaskReportView::Outbox(AppMsgView::FileDone { v: PROTOCOL_VERSION, id: id@, ok: true }),
            TaskReportView::Emit(
                EvtView::FileDone {
                    id: id@,
                    ok: true,
                    dir: Direction::In,
                    save_path: Some(save_path@),
                },
            ),
        ],
        outcome matches Err(e) ==> {
            &&& reports_view(r@).len() == 2
            &&& reports_view(r@)[0] == TaskReportView::Outbox(AppMsgView::FileCancel { v: PROTOCOL_VERSION, id: id@ })
            &&& reports_view(r@)[1] matches TaskReportView::Emit(EvtView::FileError { id: i, message: m })
                && i == id@ && m.take(e.spec_english().len() as int) == e.spec_english()
            &&& !e.wraps_outside() ==> reports_view(r@) == failed_model(id@, e)
        },
{
    match outcome {
        Ok(()) => {
            let mut r: Vec<TaskReport> = Vec::new();
            let id2 = id.clone();
            r.push(TaskReport::Outbox(AppMsg::FileDone { v: PROTOCOL_VERSION, id, ok: true }));
            r.push(
                TaskReport::Emit(
                    Evt::FileDone { id: id2, ok: true, dir: Direction::In, save_path: Some(save_path) },
                ),
            );
            assert(reports_view(r@) =~= seq![
                TaskReportView::Outbox(AppMsgView::FileDone { v: PROTOCOL_VERSION, id: id@, ok: true }),
                TaskReportView::Emit(
                    EvtView::FileDone {
                        id: id@,
                        ok: true,
                        dir: Direction::In,
                        save_path: Some(save_path@),
                    },
                ),
            ]);
            r
        },
        Err(e) => failed_reports_any(id, e),
    }
}

/// The progress event a transfer task emits.
pub fn progress_event(id: &String, bytes: u64, total: u64, dir: Direction) -> (e: Evt)
    ensures
        e@ == (EvtView::FileProgress { id: id@, bytes, total, dir }),
{
    Evt::FileProgress { id: id.clone(), bytes, total, dir }
}

/// The UI event for an error of a command or of a peer message.
pub fn error_event(e: &CoreError) -> (r: Evt)
    ensures
        r matches Evt::Error { code, message } && code@ == e.spec_code() && (!e.wraps_outside()
            ==> message@ == e.spec_english()) && message@.take(e.spec_english().len() as int)
            == e.spec_english(),
{
    let message = e.message();
    proof {
        if !e.wraps_outside() {
            assert(message@.take(e.spec_english().len() as int) =~= message@);
        }
    }
    Evt::Error { code: e.code().to_owned(), message }
}

/// The reason the session reports when it closes: `ok`, or the error's
/// message.
pub fn closed_reason(outcome: &Result<(), CoreError>) -> (r: String)
    ensures
        outcome is Ok ==> r@ == "ok"@,
        outcome matches Err(e) ==> r@.take(e.spec_english().len() as int) == e.spec_english(),
        outcome matches Err(e) ==> (!e.wraps_outside() ==> r@ == e.spec_english()),
{
    match outcome {
        Ok(()) => "ok".to_owned(),
        Err(e) => {
            let m = e.message();
            proof {
                if !e.wraps_outside() {
                    assert(m@.take(e.spec_english().len() as int) =~= m@);
                }
            }
            m
        },
    }
}

/// The debug text of a command (its derived `Debug`). Nothing is stated of
/// the text.
#[verifier::external_body]
fn cmd_debug_text(c: &Cmd) -> String {
    format!("{c:?}")
}

/// Whether a wormhole connection failed key confirmation
/// (`WormholeError::PakeFailed`). Nothing is stated of the answer.
#[verifier::external_body]
fn is_pake_failure(e: &magic_wormhole::WormholeError) -> bool {
    matches!(e, magic_wormhole::WormholeError::PakeFailed)
}

/// The joiner's first command must carry the code; anything else is a
/// protocol error.
pub fn expect_join_code(cmd: Cmd) -> (r: Result<magic_wormhole::Code, CoreError>)
    ensures
        cmd is JoinCode <==> r is Ok,
        cmd matches Cmd::JoinCode(c) ==> r == Ok::<magic_wormhole::Code, CoreError>(c),
        !(cmd is JoinCode) ==> (r matches Err(CoreError::Protocol(m)) && m@.take(
            "expected JoinCode, got "@.len() as int,
        ) == "expected JoinCode, got "@),
{
    match cmd {
        Cmd::JoinCode(c) => Ok(c),
        other => {
            let text = cmd_debug_text(&other);
            let m = join2("expected JoinCode, got ", text.as_str());
            assert(m@.take("expected JoinCode, got "@.len() as int) =~= "expected JoinCode, got "@);
            Err(CoreError::Protocol(m))
        },
    }
}

/// The error for a failed joiner connection: key confirmation failures
/// become `PakeFailed`, anything else stays a wormhole error.
pub fn joiner_connect_error(e: magic_wormhole::WormholeError) -> (r: CoreError)
    ensures
        r is PakeFailed || r == CoreError::Wormhole(e),
{
    let pake_failed = is_pake_failure(&e);
    join_error_from(e, pake_failed)
}

/// The error for a failed joiner connection once it is known whether key
/// confirmation failed.
pub fn join_error_from(e: magic_wormhole::WormholeError, pake_failed: bool) -> (r: CoreError)
    ensures
        pake_failed ==> r is PakeFailed,
        !pake_failed ==> r == CoreError::Wormhole(e),
{
    if pake_failed {
        CoreError::PakeFailed
    } else {
        CoreError::Wormhole(e)
    }
}

// ------------------------------------------------------------------
// Helpers
// ------------------------------------------------------------------

/// Nanoseconds since the Unix epoch from the system clock
/// (`SystemTime::now().duration_since(UNIX_EPOCH)`), or `None` when the
/// clock is set before the epoch. The value depends on the clock; nothing
/// is stated of it.
#[verifier::external_body]
fn unix_time_nanos() -> Option<u128> {
    match std::time::SystemTime::now().duration_since(std::time::UNIX_EPOCH) {
        Ok(d) => Some(d.as_nanos()),
        Err(_) => None,
    }
}

/// The id of a message or transfer: nanoseconds since the epoch in lower
/// case hexadecimal.
pub fn id_from_nanos(nanos: u128) -> (r: String)
    ensures
        r@ == digits_in_base(nanos as nat, 16),
{
    crate::text::u128_in_base(nanos, 16)
}

/// A fresh id from the clock (a clock before the epoch counts as zero):
/// the hexadecimal digits of some nanosecond count.
pub fn make_id() -> (r: String)
    ensures
        exists|n: nat| r@ == digits_in_base(n, 16),
{
    let n = match unix_time_nanos() {
        Some(n) => n,
        None => 0,
    };
    let r = id_from_nanos(n);
    assert(r@ == digits_in_base(n as nat, 16));
    r
}

/// Whole milliseconds of a nanosecond count, truncated to `u64` as
/// `as u64` does.
pub open spec fn millis_of(nanos: u128) -> u64 {
    (nanos / 1_000_000) as u64
}

/// Milliseconds from nanoseconds, truncated to `u64` as `as u64` does.
pub fn millis_from_nanos(nanos: u128) -> (r: u64)
    ensures
        r == millis_of(nanos),
{
    #[verifier::truncate]
    let r = (nanos / 1_000_000) as u64;
    r
}

/// Milliseconds since the epoch from the clock (zero before the epoch):
/// the whole milliseconds of some nanosecond count.
pub fn now_ms() -> (r: u64)
    ensures
        exists|n: u128| r == #[trigger] millis_of(n),
{
    let n = match unix_time_nanos() {
        Some(n) => n,
        None => 0,
    };
    millis_from_nanos(n)
}

/// The extension of a name: what follows its last `.` (the whole name
/// when it has none).
pub open spec fn extension_of(name: Seq<char>) -> Seq<char> {
    let i = last_index_of(name, '.');
    if i < 0 {
        name
    } else {
        name.skip(i + 1)
    }
}

/// MIME type by lower-cased extension; enough to flag executables in the
/// UI (`exe msi bat cmd com scr ps1` are `application/x-msdownload`).
pub open spec fn mime_for_extension(e: Seq<char>) -> Option<Seq<char>> {
    if e == "png"@ {
        Some("image/png"@)
    } else if e == "jpg"@ || e == "jpeg"@ {
        Some("image/jpeg"@)
    } else if e == "gif"@ {
        Some("image/gif"@)
    } else if e == "webp"@ {
        Some("image/webp"@)
    } else if e == "pdf"@ {
        Some("application/pdf"@)
    } else if e == "zip"@ {
        Some("application/zip"@)
    } else if e == "txt"@ || e == "md"@ || e == "log"@ {
        Some("text/plain"@)
    } else if e == "json"@ {
        Some("application/json"@)
    } else if e == "exe"@ || e == "msi"@ || e == "bat"@ || e == "cmd"@ || e == "com"@ || e
        == "scr"@ || e == "ps1"@ {
        Some("application/x-msdownload"@)
    } else {
        None
    }
}

pub open spec fn spec_mime_guess(name: Seq<char>) -> Option<Seq<char>> {
    mime_for_extension(extension_of(name).map_values(|c: char| ascii_lower(c)))
}

/// Crude MIME guess from the file extension (ASCII case ignored).
pub fn mime_guess(name: &str) -> (r: Option<String>)
    ensures
        opt_text(r) == spec_mime_guess(name@),
{
    let v = chars_of(name);
    let n = v.len();
    let start = match find_last(&v, 0, n, '.') {
        Some(i) => i + 1,
        None => 0,
    };
    assert(v@.subrange(0, n as int) =~= v@);
    let ghost ext = extension_of(name@);
    assert(ext =~= v@.subrange(start as int, n as int));
    let mut e: Vec<char> = Vec::new();
    let mut k: usize = start;
    while k < n
        invariant
            start <= k <= n,
            n == v@.len(),
            ext == v@.subrange(start as int, n as int),
            e@ == ext.take(k - start).map_values(|c: char| ascii_lower(c)),
        decreases n - k,
    {
        let c = to_ascii_lower(v[k]);
        e.push(c);
        assert(ext.take(k - start).map_values(|c: char| ascii_lower(c)).push(c) =~= ext.take(
            k + 1 - start,
        ).map_values(|c: char| ascii_lower(c)));
        k = k + 1;
    }
    assert(ext.take(n - start) =~= ext);
    let t = if chars_equal(&e, "png") {
        "image/png"
    } else if chars_equal(&e, "jpg") || chars_equal(&e, "jpeg") {
        "image/jpeg"
    } else if chars_equal(&e, "gif") {
        "image/gif"
    } else if chars_equal(&e, "webp") {
        "image/webp"
    } else if chars_equal(&e, "pdf") {
        "application/pdf"
    } else if chars_equal(&e, "zip") {
        "application/zip"
    } else if chars_equal(&e, "txt") || chars_equal(&e, "md") || chars_equal(&e, "log") {
        "text/plain"
    } else if chars_equal(&e, "json") {
        "application/json"
    } else if chars_equal(&e, "exe") || chars_equal(&e, "msi") || chars_equal(&e, "bat")
        || chars_equal(&e, "cmd") || chars_equal(&e, "com") || chars_equal(&e, "scr")
        || chars_equal(&e, "ps1") {
        "application/x-msdownload"
    } else {
        return None;
    };
    Some(t.to_owned())
}

} // verus!
