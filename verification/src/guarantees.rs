//! What the session, the UI bridge, filename sanitising, MIME guessing and
//! the update check are for, stated over all inputs with the expected
//! values written out here rather than taken from the models.

use vstd::prelude::*;
use crate::bridge::ui_event_model;
use crate::protocol::{AppMsgView, PROTOCOL_VERSION};
use crate::session::{
    cancel_model, extension_of, in_index, out_index, peer_model, spec_mime_guess, ActionView, Cancelled, Evt, EvtView, TransfersView,
};
use crate::storage::{
    is_reserved_stem, sanitized_base, spec_sanitize_filename, stem_of, MAX_FILENAME_CHARS,
};
use crate::text::{ascii_lower, ascii_upper, lemma_last_index_of, text_greater};
use crate::updater::{components_greater, parse_version, spec_is_newer_version, strip_v};

verus! {

/// When the peer cancels a transfer, every task still running for it is
/// told to stop: a held outgoing cancel sender is signalled first, a held
/// incoming one just before the UI hears of the cancellation, and the
/// cancellation event comes last.
pub proof fn law_peer_cancel_stops_running_tasks(
    t: TransfersView,
    v: u32,
    id: Seq<char>,
    fresh: (async_channel::Sender<()>, async_channel::Receiver<()>),
    tx: async_channel::Sender<()>,
)
    ensures
        peer_model(t, AppMsgView::FileCancel { v, id }, fresh).1.len() >= 1,
        peer_model(t, AppMsgView::FileCancel { v, id }, fresh).1.last() == ActionView::Emit(
            EvtView::FileCancelled { id, by: Cancelled::Peer },
        ),
        out_index(t.outgoing, id) >= 0 && t.outgoing[out_index(t.outgoing, id)].cancel_tx == Some(tx)
            ==> peer_model(t, AppMsgView::FileCancel { v, id }, fresh).1[0] == ActionView::Cancel(tx),
        in_index(t.incoming, id) >= 0 && t.incoming[in_index(t.incoming, id)].cancel_tx == Some(tx)
            ==> ({
            let a = peer_model(t, AppMsgView::FileCancel { v, id }, fresh).1;
            a.len() >= 2 && a[a.len() - 2] == ActionView::Cancel(tx)
        }),
{
}

/// Cancelling locally stops the running task too: the held sender of our
/// outgoing transfer (or, when we offered none under that id, of the
/// incoming one) is signalled first, then the peer is told, then the UI.
pub proof fn law_local_cancel_stops_running_task(t: TransfersView, id: Seq<char>, tx: async_channel::Sender<()>)
    ensures
        out_index(t.outgoing, id) >= 0 && t.outgoing[out_index(t.outgoing, id)].cancel_tx == Some(tx)
            ==> cancel_model(t, id).1 == seq![
            ActionView::Cancel(tx),
            ActionView::Send(AppMsgView::FileCancel { v: PROTOCOL_VERSION, id }),
            ActionView::Emit(EvtView::FileCancelled { id, by: Cancelled::Local }),
        ],
        out_index(t.outgoing, id) < 0 && in_index(t.incoming, id) >= 0 && t.incoming[in_index(
            t.incoming,
            id,
        )].cancel_tx == Some(tx) ==> cancel_model(t, id).1 == seq![
            ActionView::Cancel(tx),
            ActionView::Send(AppMsgView::FileCancel { v: PROTOCOL_VERSION, id }),
            ActionView::Emit(EvtView::FileCancelled { id, by: Cancelled::Local }),
        ],
        out_index(t.outgoing, id) < 0 && in_index(t.incoming, id) < 0 ==> cancel_model(t, id).1.len()
            == 0,
{
    let tell = seq![
        ActionView::Send(AppMsgView::FileCancel { v: PROTOCOL_VERSION, id }),
        ActionView::Emit(EvtView::FileCancelled { id, by: Cancelled::Local }),
    ];
    assert(seq![ActionView::Cancel(tx)] + tell =~= seq![
        ActionView::Cancel(tx),
        ActionView::Send(AppMsgView::FileCancel { v: PROTOCOL_VERSION, id }),
        ActionView::Emit(EvtView::FileCancelled { id, by: Cancelled::Local }),
    ]);
}

/// When the peer accepts an offer we still hold with its connector, the
/// file at the offer's path is streamed with that connector to the
/// peer's advertised hints and abilities, the new task's receiver and the
/// sender now kept for the offer are the two ends of one channel, and
/// the UI hears of the acceptance first.
pub proof fn law_accept_streams_the_offered_file(
    t: TransfersView,
    v: u32,
    id: Seq<char>,
    hints: magic_wormhole::transit::Hints,
    abilities: magic_wormhole::transit::Abilities,
    fresh: (async_channel::Sender<()>, async_channel::Receiver<()>),
)
    requires
        out_index(t.outgoing, id) >= 0,
        t.outgoing[out_index(t.outgoing, id)].connector is Some,
    ensures
        ({
            let o = t.outgoing[out_index(t.outgoing, id)];
            let (t2, a) = peer_model(t, AppMsgView::FileAccept { v, id, hints, abilities }, fresh);
            &&& a == seq![
                ActionView::Emit(EvtView::FileAccepted { id }),
                ActionView::StartSend {
                    id,
                    size: o.size,
                    path: o.path,
                    connector: o.connector.unwrap(),
                    their_hints: hints,
                    their_abilities: abilities,
                    cancel_rx: fresh.1,
                },
            ]
            &&& t2.outgoing[out_index(t.outgoing, id)].cancel_tx == Some(fresh.0)
            &&& t2.outgoing[out_index(t.outgoing, id)].connector is None
            &&& t2.incoming == t.incoming
        }),
{
    crate::session::lemma_index_of_facts(crate::session::out_ids(t.outgoing), id);
}

/// Lexical order by code point, as `str`'s `>` compares: at the first
/// position where the two differ the left character is greater, or the
/// right text is a proper prefix of the left.
pub open spec fn lexically_greater(a: Seq<char>, b: Seq<char>) -> bool {
    exists|k: int|
        #![trigger a.take(k), b.take(k)]
        0 <= k <= a.len() && k <= b.len() && a.take(k) == b.take(k) && ((k < a.len() && k
            < b.len() && (a[k] as u32) > (b[k] as u32)) || (k == b.len() && k < a.len()))
}

proof fn lemma_text_greater_is_lexical(a: Seq<char>, b: Seq<char>)
    ensures
        text_greater(a, b) <==> lexically_greater(a, b),
    decreases a.len(),
{
    if a.len() == 0 {
        if lexically_greater(a, b) {
            let k = choose|k: int|
                #![trigger a.take(k), b.take(k)]
                0 <= k <= a.len() && k <= b.len() && a.take(k) == b.take(k) && ((k < a.len() && k
                    < b.len() && (a[k] as u32) > (b[k] as u32)) || (k == b.len() && k < a.len()));
        }
    } else if b.len() == 0 {
        assert(a.take(0) =~= b.take(0));
    } else if a[0] != b[0] {
        assert(a.take(0) =~= b.take(0));
        if lexically_greater(a, b) {
            let k = choose|k: int|
                #![trigger a.take(k), b.take(k)]
                0 <= k <= a.len() && k <= b.len() && a.take(k) == b.take(k) && ((k < a.len() && k
                    < b.len() && (a[k] as u32) > (b[k] as u32)) || (k == b.len() && k < a.len()));
            if k > 0 {
                assert(a.take(k)[0] == b.take(k)[0]);
            }
        }
    } else {
        let a1 = a.drop_first();
        let b1 = b.drop_first();
        lemma_text_greater_is_lexical(a1, b1);
        if lexically_greater(a1, b1) {
            let k = choose|k: int|
                #![trigger a1.take(k), b1.take(k)]
                0 <= k <= a1.len() && k <= b1.len() && a1.take(k) == b1.take(k) && ((k < a1.len()
                    && k < b1.len() && (a1[k] as u32) > (b1[k] as u32)) || (k == b1.len() && k
                    < a1.len()));
            assert(a.take(k + 1) =~= b.take(k + 1)) by {
                assert forall|j: int| 0 <= j < k + 1 implies #[trigger] a.take(k + 1)[j] == b.take(k + 1)[j] by {
                    if j > 0 {
                        assert(a1.take(k)[j - 1] == b1.take(k)[j - 1]);
                    }
                }
            }
            assert(a[k + 1] == a1[k]);
            assert(b.len() == b1.len() + 1);
        }
        if lexically_greater(a, b) {
            let k = choose|k: int|
                #![trigger a.take(k), b.take(k)]
                0 <= k <= a.len() && k <= b.len() && a.take(k) == b.take(k) && ((k < a.len() && k
                    < b.len() && (a[k] as u32) > (b[k] as u32)) || (k == b.len() && k < a.len()));
            assert(k > 0);
            assert(a1.take(k - 1) =~= b1.take(k - 1)) by {
                assert forall|j: int| 0 <= j < k - 1 implies #[trigger] a1.take(k - 1)[j] == b1.take(k - 1)[j] by {
                    assert(a.take(k)[j + 1] == b.take(k)[j + 1]);
                }
            }
            assert(a[k] == a1[k - 1]);
        }
    }
}

/// When either version (without its leading `v`s) is not made of dotted
/// `u32` components, "newer" is the lexical comparison of the two texts;
/// a version that parses is not thereby judged older or newer.
pub proof fn law_unparsed_versions_compare_as_text(remote: Seq<char>, current: Seq<char>)
    requires
        parse_version(strip_v(remote)) is None || parse_version(strip_v(current)) is None,
    ensures
        spec_is_newer_version(remote, current) == lexically_greater(strip_v(remote), strip_v(current)),
{
    lemma_text_greater_is_lexical(strip_v(remote), strip_v(current));
}

/// Dotted versions by their numbers: at the first component where the two
/// differ the left one is larger, or the right version is a proper prefix
/// of the left (so `1.2.1` is newer than `1.2`).
pub open spec fn numerically_greater(a: Seq<nat>, b: Seq<nat>) -> bool {
    exists|k: int|
        #![trigger a.take(k), b.take(k)]
        0 <= k <= a.len() && k <= b.len() && a.take(k) == b.take(k) && ((k < a.len() && k
            < b.len() && a[k] > b[k]) || (k == b.len() && k < a.len()))
}

proof fn lemma_components_greater_is_numeric(a: Seq<nat>, b: Seq<nat>)
    ensures
        components_greater(a, b) <==> numerically_greater(a, b),
    decreases a.len(),
{
    if a.len() == 0 {
        if numerically_greater(a, b) {
            let k = choose|k: int|
                #![trigger a.take(k), b.take(k)]
                0 <= k <= a.len() && k <= b.len() && a.take(k) == b.take(k) && ((k < a.len() && k
                    < b.len() && a[k] > b[k]) || (k == b.len() && k < a.len()));
        }
    } else if b.len() == 0 {
        assert(a.take(0) =~= b.take(0));
    } else if a[0] != b[0] {
        assert(a.take(0) =~= b.take(0));
        if numerically_greater(a, b) {
            let k = choose|k: int|
                #![trigger a.take(k), b.take(k)]
                0 <= k <= a.len() && k <= b.len() && a.take(k) == b.take(k) && ((k < a.len() && k
                    < b.len() && a[k] > b[k]) || (k == b.len() && k < a.len()));
            if k > 0 {
                assert(a.take(k)[0] == b.take(k)[0]);
            }
        }
    } else {
        let a1 = a.drop_first();
        let b1 = b.drop_first();
        lemma_components_greater_is_numeric(a1, b1);
        if numerically_greater(a1, b1) {
            let k = choose|k: int|
                #![trigger a1.take(k), b1.take(k)]
                0 <= k <= a1.len() && k <= b1.len() && a1.take(k) == b1.take(k) && ((k < a1.len()
                    && k < b1.len() && a1[k] > b1[k]) || (k == b1.len() && k < a1.len()));
            assert(a.take(k + 1) =~= b.take(k + 1)) by {
                assert forall|j: int| 0 <= j < k + 1 implies #[trigger] a.take(k + 1)[j] == b.take(k + 1)[j] by {
                    if j > 0 {
                        assert(a1.take(k)[j - 1] == b1.take(k)[j - 1]);
                    }
                }
            }
            assert(a[k + 1] == a1[k]);
            assert(b.len() == b1.len() + 1);
        }
        if numerically_greater(a, b) {
            let k = choose|k: int|
                #![trigger a.take(k), b.take(k)]
                0 <= k <= a.len() && k <= b.len() && a.take(k) == b.take(k) && ((k < a.len() && k
                    < b.len() && a[k] > b[k]) || (k == b.len() && k < a.len()));
            assert(k > 0);
            assert(a1.take(k - 1) =~= b1.take(k - 1)) by {
                assert forall|j: int| 0 <= j < k - 1 implies #[trigger] a1.take(k - 1)[j] == b1.take(k - 1)[j] by {
                    assert(a.take(k)[j + 1] == b.take(k)[j + 1]);
                }
            }
            assert(a[k] == a1[k - 1]);
        }
    }
}

/// When both versions (without their leading `v`s) are dotted numbers,
/// "newer" compares them component by component as numbers.
pub proof fn law_parsed_versions_compare_by_number(remote: Seq<char>, current: Seq<char>)
    requires
        parse_version(strip_v(remote)) is Some,
        parse_version(strip_v(current)) is Some,
    ensures
        spec_is_newer_version(remote, current) == numerically_greater(
            parse_version(strip_v(remote)).unwrap(),
            parse_version(strip_v(current)).unwrap(),
        ),
{
    lemma_components_greater_is_numeric(
        parse_version(strip_v(remote)).unwrap(),
        parse_version(strip_v(current)).unwrap(),
    );
}

/// The position of a session event's variant in the declaration of `Evt`.
pub open spec fn evt_kind(e: Evt) -> int {
    match e {
        Evt::Code(..) => 0,
        Evt::Connected => 1,
        Evt::TextReceived { .. } => 2,
        Evt::TextSent { .. } => 3,
        Evt::FileOffer { .. } => 4,
        Evt::FileOfferSent { .. } => 5,
        Evt::FileAccepted { .. } => 6,
        Evt::FileProgress { .. } => 7,
        Evt::FileDone { .. } => 8,
        Evt::FileCancelled { .. } => 9,
        Evt::FileError { .. } => 10,
        Evt::Closed { .. } => 11,
        Evt::Error { .. } => 12,
    }
}

/// The variant a UI event name stands for.
spec fn kind_named(n: Seq<char>) -> int {
    if n == "session:code"@ {
        0
    } else if n == "session:connected"@ {
        1
    } else if n == "msg:text"@ {
        2
    } else if n == "msg:text_sent"@ {
        3
    } else if n == "msg:file_offer"@ {
        4
    } else if n == "msg:file_offer_sent"@ {
        5
    } else if n == "file:accepted"@ {
        6
    } else if n == "file:progress"@ {
        7
    } else if n == "file:done"@ {
        8
    } else if n == "file:cancelled"@ {
        9
    } else if n == "file:error"@ {
        10
    } else if n == "session:closed"@ {
        11
    } else {
        12
    }
}

/// Each session event reaches the UI under its own fixed name: the
/// user's own text is `msg:text_sent`, the peer's `msg:text`, and so on.
pub proof fn law_ui_event_names(e: Evt)
    ensures
        e is Code ==> ui_event_model(e).0 == "session:code"@,
        e is Connected ==> ui_event_model(e).0 == "session:connected"@,
        e is TextReceived ==> ui_event_model(e).0 == "msg:text"@,
        e is TextSent ==> ui_event_model(e).0 == "msg:text_sent"@,
        e is FileOffer ==> ui_event_model(e).0 == "msg:file_offer"@,
        e is FileOfferSent ==> ui_event_model(e).0 == "msg:file_offer_sent"@,
        e is FileAccepted ==> ui_event_model(e).0 == "file:accepted"@,
        e is FileProgress ==> ui_event_model(e).0 == "file:progress"@,
        e is FileDone ==> ui_event_model(e).0 == "file:done"@,
        e is FileCancelled ==> ui_event_model(e).0 == "file:cancelled"@,
        e is FileError ==> ui_event_model(e).0 == "file:error"@,
        e is Closed ==> ui_event_model(e).0 == "session:closed"@,
        e is Error ==> ui_event_model(e).0 == "error"@,
{
}

proof fn lemma_name_tells_kind(e: Evt)
    ensures
        kind_named(ui_event_model(e).0) == evt_kind(e),
{
    reveal_strlit("session:code");
    reveal_strlit("session:connected");
    reveal_strlit("msg:text");
    reveal_strlit("msg:text_sent");
    reveal_strlit("msg:file_offer");
    reveal_strlit("msg:file_offer_sent");
    reveal_strlit("file:accepted");
    reveal_strlit("file:progress");
    reveal_strlit("file:done");
    reveal_strlit("file:cancelled");
    reveal_strlit("file:error");
    reveal_strlit("session:closed");
    reveal_strlit("error");
    match e {
        Evt::Code(..) => {},
        Evt::Connected => {
            assert("session:connected"@.len() != "session:code"@.len());
        },
        Evt::TextReceived { .. } => {
            assert("msg:text"@.len() != "session:code"@.len());
            assert("msg:text"@.len() != "session:connected"@.len());
        },
        Evt::TextSent { .. } => {
            assert("msg:text_sent"@.len() != "session:code"@.len());
            assert("msg:text_sent"@.len() != "session:connected"@.len());
            assert("msg:text_sent"@.len() != "msg:text"@.len());
        },
        Evt::FileOffer { .. } => {
            assert("msg:file_offer"@.len() != "session:code"@.len());
            assert("msg:file_offer"@.len() != "session:connected"@.len());
            assert("msg:file_offer"@.len() != "msg:text"@.len());
            assert("msg:file_offer"@.len() != "msg:text_sent"@.len());
        },
        Evt::FileOfferSent { .. } => {
            assert("msg:file_offer_sent"@.len() != "session:code"@.len());
            assert("msg:file_offer_sent"@.len() != "session:connected"@.len());
            assert("msg:file_offer_sent"@.len() != "msg:text"@.len());
            assert("msg:file_offer_sent"@.len() != "msg:text_sent"@.len());
            assert("msg:file_offer_sent"@.len() != "msg:file_offer"@.len());
        },
        Evt::FileAccepted { .. } => {
            assert("file:accepted"@.len() != "session:code"@.len());
            assert("file:accepted"@.len() != "session:connected"@.len());
            assert("file:accepted"@.len() != "msg:text"@.len());
            assert("file:accepted"@[0] != "msg:text_sent"@[0]);
            assert("file:accepted"@.len() != "msg:file_offer"@.len());
            assert("file:accepted"@.len() != "msg:file_offer_sent"@.len());
        },
        Evt::FileProgress { .. } => {
            assert("file:progress"@.len() != "session:code"@.len());
            assert("file:progress"@.len() != "session:connected"@.len());
            assert("file:progress"@.len() != "msg:text"@.len());
            assert("file:progress"@[0] != "msg:text_sent"@[0]);
            assert("file:progress"@.len() != "msg:file_offer"@.len());
            assert("file:progress"@.len() != "msg:file_offer_sent"@.len());
            assert("file:progress"@[5] != "file:accepted"@[5]);
        },
        Evt::FileDone { .. } => {
            assert("file:done"@.len() != "session:code"@.len());
            assert("file:done"@.len() != "session:connected"@.len());
            assert("file:done"@.len() != "msg:text"@.len());
            assert("file:done"@.len() != "msg:text_sent"@.len());
            assert("file:done"@.len() != "msg:file_offer"@.len());
            assert("file:done"@.len() != "msg:file_offer_sent"@.len());
            assert("file:done"@.len() != "file:accepted"@.len());
            assert("file:done"@.len() != "file:progress"@.len());
        },
        Evt::FileCancelled { .. } => {
            assert("file:cancelled"@.len() != "session:code"@.len());
            assert("file:cancelled"@.len() != "session:connected"@.len());
            assert("file:cancelled"@.len() != "msg:text"@.len());
            assert("file:cancelled"@.len() != "msg:text_sent"@.len());
            assert("file:cancelled"@[0] != "msg:file_offer"@[0]);
            assert("file:cancelled"@.len() != "msg:file_offer_sent"@.len());
            assert("file:cancelled"@.len() != "file:accepted"@.len());
            assert("file:cancelled"@.len() != "file:progress"@.len());
            assert("file:cancelled"@.len() != "file:done"@.len());
        },
        Evt::FileError { .. } => {
            assert("file:error"@.len() != "session:code"@.len());
            assert("file:error"@.len() != "session:connected"@.len());
            assert("file:error"@.len() != "msg:text"@.len());
            assert("file:error"@.len() != "msg:text_sent"@.len());
            assert("file:error"@.len() != "msg:file_offer"@.len());
            assert("file:error"@.len() != "msg:file_offer_sent"@.len());
            assert("file:error"@.len() != "file:accepted"@.len());
            assert("file:error"@.len() != "file:progress"@.len());
            assert("file:error"@.len() != "file:done"@.len());
            assert("file:error"@.len() != "file:cancelled"@.len());
        },
        Evt::Closed { .. } => {
            assert("session:closed"@.len() != "session:code"@.len());
            assert("session:closed"@.len() != "session:connected"@.len());
            assert("session:closed"@.len() != "msg:text"@.len());
            assert("session:closed"@.len() != "msg:text_sent"@.len());
            assert("session:closed"@[0] != "msg:file_offer"@[0]);
            assert("session:closed"@.len() != "msg:file_offer_sent"@.len());
            assert("session:closed"@.len() != "file:accepted"@.len());
            assert("session:closed"@.len() != "file:progress"@.len());
            assert("session:closed"@.len() != "file:done"@.len());
            assert("session:closed"@[0] != "file:cancelled"@[0]);
            assert("session:closed"@.len() != "file:error"@.len());
        },
        Evt::Error { .. } => {
            assert("error"@.len() != "session:code"@.len());
            assert("error"@.len() != "session:connected"@.len());
            assert("error"@.len() != "msg:text"@.len());
            assert("error"@.len() != "msg:text_sent"@.len());
            assert("error"@.len() != "msg:file_offer"@.len());
            assert("error"@.len() != "msg:file_offer_sent"@.len());
            assert("error"@.len() != "file:accepted"@.len());
            assert("error"@.len() != "file:progress"@.len());
            assert("error"@.len() != "file:done"@.len());
            assert("error"@.len() != "file:cancelled"@.len());
            assert("error"@.len() != "file:error"@.len());
            assert("error"@.len() != "session:closed"@.len());
        },
    }
}

/// Distinct kinds of session event never share a UI event name, so the
/// UI can tell, for instance, a text we sent from one we received.
pub proof fn law_ui_event_names_are_distinct(e1: Evt, e2: Evt)
    ensures
        ui_event_model(e1).0 == ui_event_model(e2).0 ==> evt_kind(e1) == evt_kind(e2),
{
    lemma_name_tells_kind(e1);
    lemma_name_tells_kind(e2);
}

/// Windows device names, as upper-cased stems: `CON`, `PRN`, `AUX`,
/// `NUL`, and `COM` or `LPT` followed by one or more digits.
pub open spec fn is_windows_device_name(u: Seq<char>) -> bool {
    ||| u == "CON"@
    ||| u == "PRN"@
    ||| u == "AUX"@
    ||| u == "NUL"@
    ||| {
        &&& u.len() > 3
        &&& (u.take(3) == "COM"@ || u.take(3) == "LPT"@)
        &&& forall|k: int| 3 <= k < u.len() ==> '0' <= #[trigger] u[k] && u[k] <= '9'
    }
}

/// A received name whose part before the first dot is, ignoring ASCII
/// case, a Windows device name gets a `_` in front of its base name (so
/// `AUX.txt` is saved as `_AUX.txt`); any other name is its base name.
/// Stated for names short enough that the 200-character cap cuts nothing.
pub proof fn law_device_names_get_an_underscore(s: Seq<char>)
    requires
        sanitized_base(s).len() < MAX_FILENAME_CHARS,
    ensures
        is_windows_device_name(stem_of(sanitized_base(s)).map_values(|c: char| ascii_upper(c)))
            ==> spec_sanitize_filename(s) == seq!['_'] + sanitized_base(s),
        !is_windows_device_name(stem_of(sanitized_base(s)).map_values(|c: char| ascii_upper(c)))
            ==> spec_sanitize_filename(s) == sanitized_base(s),
{
    reveal_strlit("CON");
    reveal_strlit("PRN");
    reveal_strlit("AUX");
    reveal_strlit("NUL");
    reveal_strlit("COM");
    reveal_strlit("LPT");
    assert("CON"@ =~= seq!['C', 'O', 'N']);
    assert("PRN"@ =~= seq!['P', 'R', 'N']);
    assert("AUX"@ =~= seq!['A', 'U', 'X']);
    assert("NUL"@ =~= seq!['N', 'U', 'L']);
    assert("COM"@ =~= seq!['C', 'O', 'M']);
    assert("LPT"@ =~= seq!['L', 'P', 'T']);
    let u = stem_of(sanitized_base(s)).map_values(|c: char| ascii_upper(c));
    assert(is_windows_device_name(u) == is_reserved_stem(u));
}

/// `ext` with ASCII letters lower-cased.
pub open spec fn lower_ext(ext: Seq<char>) -> Seq<char> {
    ext.map_values(|c: char| ascii_lower(c))
}

/// A file name ending in the extension `ext`: `base.ext`, or `ext` alone
/// when the name has no dot.
pub open spec fn named(base: Seq<char>, ext: Seq<char>, dotted: bool) -> Seq<char> {
    if dotted {
        base + seq!['.'] + ext
    } else {
        ext
    }
}

proof fn lemma_extension_of_named(base: Seq<char>, ext: Seq<char>, dotted: bool)
    requires
        !ext.contains('.'),
        !dotted ==> base.len() == 0,
    ensures
        extension_of(named(base, ext, dotted)) == ext,
{
    let n = named(base, ext, dotted);
    if dotted {
        let i = base.len() as int;
        assert forall|k: int| i < k < n.len() implies #[trigger] n[k] != '.' by {
            assert(n[k] == ext[k - i - 1]);
        }
        lemma_last_index_of(n, '.', i);
        assert(n.skip(i + 1) =~= ext);
    } else {
        assert forall|k: int| -1 < k < n.len() implies #[trigger] n[k] != '.' by {
            assert(n[k] == ext[k]);
        }
        lemma_last_index_of(n, '.', -1);
    }
}

/// The MIME type guessed for a file name follows its extension (what
/// follows the last dot, ASCII case ignored) by a fixed table, and is
/// none for any other extension.
pub proof fn law_mime_types_by_extension(base: Seq<char>, ext: Seq<char>, dotted: bool)
    requires
        !ext.contains('.'),
        !dotted ==> base.len() == 0,
    ensures
        lower_ext(ext) == "png"@ ==> spec_mime_guess(named(base, ext, dotted)) == Some("image/png"@),
        lower_ext(ext) == "jpg"@ ==> spec_mime_guess(named(base, ext, dotted)) == Some("image/jpeg"@),
        lower_ext(ext) == "jpeg"@ ==> spec_mime_guess(named(base, ext, dotted)) == Some("image/jpeg"@),
        lower_ext(ext) == "gif"@ ==> spec_mime_guess(named(base, ext, dotted)) == Some("image/gif"@),
        lower_ext(ext) == "webp"@ ==> spec_mime_guess(named(base, ext, dotted)) == Some("image/webp"@),
        lower_ext(ext) == "pdf"@ ==> spec_mime_guess(named(base, ext, dotted)) == Some("application/pdf"@),
        lower_ext(ext) == "zip"@ ==> spec_mime_guess(named(base, ext, dotted)) == Some("application/zip"@),
        lower_ext(ext) == "txt"@ ==> spec_mime_guess(named(base, ext, dotted)) == Some("text/plain"@),
        lower_ext(ext) == "md"@ ==> spec_mime_guess(named(base, ext, dotted)) == Some("text/plain"@),
        lower_ext(ext) == "log"@ ==> spec_mime_guess(named(base, ext, dotted)) == Some("text/plain"@),
        lower_ext(ext) == "json"@ ==> spec_mime_guess(named(base, ext, dotted)) == Some("application/json"@),
        lower_ext(ext) == "exe"@ ==> spec_mime_guess(named(base, ext, dotted)) == Some("application/x-msdownload"@),
        lower_ext(ext) == "msi"@ ==> spec_mime_guess(named(base, ext, dotted)) == Some("application/x-msdownload"@),
        lower_ext(ext) == "bat"@ ==> spec_mime_guess(named(base, ext, dotted)) == Some("application/x-msdownload"@),
        lower_ext(ext) == "cmd"@ ==> spec_mime_guess(named(base, ext, dotted)) == Some("application/x-msdownload"@),
        lower_ext(ext) == "com"@ ==> spec_mime_guess(named(base, ext, dotted)) == Some("application/x-msdownload"@),
        lower_ext(ext) == "scr"@ ==> spec_mime_guess(named(base, ext, dotted)) == Some("application/x-msdownload"@),
        lower_ext(ext) == "ps1"@ ==> spec_mime_guess(named(base, ext, dotted)) == Some("application/x-msdownload"@),
        lower_ext(ext) != "png"@ && lower_ext(ext) != "jpg"@ && lower_ext(ext) != "jpeg"@ && lower_ext(ext) != "gif"@ && lower_ext(ext) != "webp"@ && lower_ext(ext) != "pdf"@ && lower_ext(ext) != "zip"@ && lower_ext(ext) != "txt"@ && lower_ext(ext) != "md"@ && lower_ext(ext) != "log"@ && lower_ext(ext) != "json"@ && lower_ext(ext) != "exe"@ && lower_ext(ext) != "msi"@ && lower_ext(ext) != "bat"@ && lower_ext(ext) != "cmd"@ && lower_ext(ext) != "com"@ && lower_ext(ext) != "scr"@ && lower_ext(ext) != "ps1"@ ==> spec_mime_guess(named(base, ext, dotted)) is None,
{
    lemma_extension_of_named(base, ext, dotted);
    reveal_strlit("png");
    reveal_strlit("jpg");
    reveal_strlit("jpeg");
    reveal_strlit("gif");
    reveal_strlit("webp");
    reveal_strlit("pdf");
    reveal_strlit("zip");
    reveal_strlit("txt");
    reveal_strlit("md");
    reveal_strlit("log");
    reveal_strlit("json");
    reveal_strlit("exe");
    reveal_strlit("msi");
    reveal_strlit("bat");
    reveal_strlit("cmd");
    reveal_strlit("com");
    reveal_strlit("scr");
    reveal_strlit("ps1");
    let l = lower_ext(ext);
    if l == "jpg"@ {
        assert("jpg"@[0] != "png"@[0]);
    }
    if l == "jpeg"@ {
        assert("jpeg"@.len() != "png"@.len());
        assert("jpeg"@.len() != "jpg"@.len());
    }
    if l == "gif"@ {
        assert("gif"@[0] != "png"@[0]);
        assert("gif"@[0] != "jpg"@[0]);
        assert("gif"@.len() != "jpeg"@.len());
    }
    if l == "webp"@ {
        assert("webp"@.len() != "png"@.len());
        assert("webp"@.len() != "jpg"@.len());
        assert("webp"@[0] != "jpeg"@[0]);
        assert("webp"@.len() != "gif"@.len());
    }
    if l == "pdf"@ {
        assert("pdf"@[1] != "png"@[1]);
        assert("pdf"@[0] != "jpg"@[0]);
        assert("pdf"@.len() != "jpeg"@.len());
        assert("pdf"@[0] != "gif"@[0]);
        assert("pdf"@.len() != "webp"@.len());
    }
    if l == "zip"@ {
        assert("zip"@[0] != "png"@[0]);
        assert("zip"@[0] != "jpg"@[0]);
        assert("zip"@.len() != "jpeg"@.len());
        assert("zip"@[0] != "gif"@[0]);
        assert("zip"@.len() != "webp"@.len());
        assert("zip"@[0] != "pdf"@[0]);
    }
    if l == "txt"@ {
        assert("txt"@[0] != "png"@[0]);
        assert("txt"@[0] != "jpg"@[0]);
        assert("txt"@.len() != "jpeg"@.len());
        assert("txt"@[0] != "gif"@[0]);
        assert("txt"@.len() != "webp"@.len());
        assert("txt"@[0] != "pdf"@[0]);
        assert("txt"@[0] != "zip"@[0]);
    }
    if l == "md"@ {
        assert("md"@.len() != "png"@.len());
        assert("md"@.len() != "jpg"@.len());
        assert("md"@.len() != "jpeg"@.len());
        assert("md"@.len() != "gif"@.len());
        assert("md"@.len() != "webp"@.len());
        assert("md"@.len() != "pdf"@.len());
        assert("md"@.len() != "zip"@.len());
        assert("md"@.len() != "txt"@.len());
    }
    if l == "log"@ {
        assert("log"@[0] != "png"@[0]);
        assert("log"@[0] != "jpg"@[0]);
        assert("log"@.len() != "jpeg"@.len());
        assert("log"@[0] != "gif"@[0]);
        assert("log"@.len() != "webp"@.len());
        assert("log"@[0] != "pdf"@[0]);
        assert("log"@[0] != "zip"@[0]);
        assert("log"@[0] != "txt"@[0]);
        assert("log"@.len() != "md"@.len());
    }
    if l == "json"@ {
        assert("json"@.len() != "png"@.len());
        assert("json"@.len() != "jpg"@.len());
        assert("json"@[1] != "jpeg"@[1]);
        assert("json"@.len() != "gif"@.len());
        assert("json"@[0] != "webp"@[0]);
        assert("json"@.len() != "pdf"@.len());
        assert("json"@.len() != "zip"@.len());
        assert("json"@.len() != "txt"@.len());
        assert("json"@.len() != "md"@.len());
        assert("json"@.len() != "log"@.len());
    }
    if l == "exe"@ {
        assert("exe"@[0] != "png"@[0]);
        assert("exe"@[0] != "jpg"@[0]);
        assert("exe"@.len() != "jpeg"@.len());
        assert("exe"@[0] != "gif"@[0]);
        assert("exe"@.len() != "webp"@.len());
        assert("exe"@[0] != "pdf"@[0]);
        assert("exe"@[0] != "zip"@[0]);
        assert("exe"@[0] != "txt"@[0]);
        assert("exe"@.len() != "md"@.len());
        assert("exe"@[0] != "log"@[0]);
        assert("exe"@.len() != "json"@.len());
    }
    if l == "msi"@ {
        assert("msi"@[0] != "png"@[0]);
        assert("msi"@[0] != "jpg"@[0]);
        assert("msi"@.len() != "jpeg"@.len());
        assert("msi"@[0] != "gif"@[0]);
        assert("msi"@.len() != "webp"@.len());
        assert("msi"@[0] != "pdf"@[0]);
        assert("msi"@[0] != "zip"@[0]);
        assert("msi"@[0] != "txt"@[0]);
        assert("msi"@.len() != "md"@.len());
        assert("msi"@[0] != "log"@[0]);
        assert("msi"@.len() != "json"@.len());
        assert("msi"@[0] != "exe"@[0]);
    }
    if l == "bat"@ {
        assert("bat"@[0] != "png"@[0]);
        assert("bat"@[0] != "jpg"@[0]);
        assert("bat"@.len() != "jpeg"@.len());
        assert("bat"@[0] != "gif"@[0]);
        assert("bat"@.len() != "webp"@.len());
        assert("bat"@[0] != "pdf"@[0]);
        assert("bat"@[0] != "zip"@[0]);
        assert("bat"@[0] != "txt"@[0]);
        assert("bat"@.len() != "md"@.len());
        assert("bat"@[0] != "log"@[0]);
        assert("bat"@.len() != "json"@.len());
        assert("bat"@[0] != "exe"@[0]);
        assert("bat"@[0] != "msi"@[0]);
    }
    if l == "cmd"@ {
        assert("cmd"@[0] != "png"@[0]);
        assert("cmd"@[0] != "jpg"@[0]);
        assert("cmd"@.len() != "jpeg"@.len());
        assert("cmd"@[0] != "gif"@[0]);
        assert("cmd"@.len() != "webp"@.len());
        assert("cmd"@[0] != "pdf"@[0]);
        assert("cmd"@[0] != "zip"@[0]);
        assert("cmd"@[0] != "txt"@[0]);
        assert("cmd"@.len() != "md"@.len());
        assert("cmd"@[0] != "log"@[0]);
        assert("cmd"@.len() != "json"@.len());
        assert("cmd"@[0] != "exe"@[0]);
        assert("cmd"@[0] != "msi"@[0]);
        assert("cmd"@[0] != "bat"@[0]);
    }
    if l == "com"@ {
        assert("com"@[0] != "png"@[0]);
        assert("com"@[0] != "jpg"@[0]);
        assert("com"@.len() != "jpeg"@.len());
        assert("com"@[0] != "gif"@[0]);
        assert("com"@.len() != "webp"@.len());
        assert("com"@[0] != "pdf"@[0]);
        assert("com"@[0] != "zip"@[0]);
        assert("com"@[0] != "txt"@[0]);
        assert("com"@.len() != "md"@.len());
        assert("com"@[0] != "log"@[0]);
        assert("com"@.len() != "json"@.len());
        assert("com"@[0] != "exe"@[0]);
        assert("com"@[0] != "msi"@[0]);
        assert("com"@[0] != "bat"@[0]);
        assert("com"@[1] != "cmd"@[1]);
    }
    if l == "scr"@ {
        assert("scr"@[0] != "png"@[0]);
        assert("scr"@[0] != "jpg"@[0]);
        assert("scr"@.len() != "jpeg"@.len());
        assert("scr"@[0] != "gif"@[0]);
        assert("scr"@.len() != "webp"@.len());
        assert("scr"@[0] != "pdf"@[0]);
        assert("scr"@[0] != "zip"@[0]);
        assert("scr"@[0] != "txt"@[0]);
        assert("scr"@.len() != "md"@.len());
        assert("scr"@[0] != "log"@[0]);
        assert("scr"@.len() != "json"@.len());
        assert("scr"@[0] != "exe"@[0]);
        assert("scr"@[0] != "msi"@[0]);
        assert("scr"@[0] != "bat"@[0]);
        assert("scr"@[0] != "cmd"@[0]);
        assert("scr"@[0] != "com"@[0]);
    }
    if l == "ps1"@ {
        assert("ps1"@[1] != "png"@[1]);
        assert("ps1"@[0] != "jpg"@[0]);
        assert("ps1"@.len() != "jpeg"@.len());
        assert("ps1"@[0] != "gif"@[0]);
        assert("ps1"@.len() != "webp"@.len());
        assert("ps1"@[1] != "pdf"@[1]);
        assert("ps1"@[0] != "zip"@[0]);
        assert("ps1"@[0] != "txt"@[0]);
        assert("ps1"@.len() != "md"@.len());
        assert("ps1"@[0] != "log"@[0]);
        assert("ps1"@.len() != "json"@.len());
        assert("ps1"@[0] != "exe"@[0]);
        assert("ps1"@[0] != "msi"@[0]);
        assert("ps1"@[0] != "bat"@[0]);
        assert("ps1"@[0] != "cmd"@[0]);
        assert("ps1"@[0] != "com"@[0]);
        assert("ps1"@[0] != "scr"@[0]);
    }
}

} // verus!
