//! Application-layer protocol carried over the magic-wormhole mailbox.
//!
//! Messages are JSON-encoded (by the host) and bounded to a 1 MB mailbox
//! payload. The version field is strictly checked. File bytes go over the
//! transit channel, not the mailbox:
//!
//!   sender   -> receiver: FileOffer{id, name, size, mime, hints, abilities}
//!   receiver -> sender:   FileAccept{id, hints, abilities} or FileReject{id, reason}
//!   either   -> other:    FileCancel{id} (during transit)
//!   receiver -> sender:   FileDone{id, ok} (after transit completes)

use vstd::prelude::*;
use crate::error::CoreError;
use crate::text::{decimal, digits_in_base, join2, join3};

verus! {

pub const PROTOCOL_VERSION: u32 = 1;

/// Maximum size of a single mailbox payload (JSON bytes).
pub const MAX_MAILBOX_PAYLOAD: usize = 1048576;

#[verifier::external_type_specification]
#[verifier::external_body]
pub struct ExHints(magic_wormhole::transit::Hints);

#[verifier::external_type_specification]
#[verifier::external_body]
pub struct ExAbilities(magic_wormhole::transit::Abilities);

#[derive(Debug)]
pub enum AppMsg {
    Text { v: u32, id: String, content: String, ts: u64 },
    FileOffer {
        v: u32,
        id: String,
        name: String,
        size: u64,
        mime: Option<String>,
        hints: magic_wormhole::transit::Hints,
        abilities: magic_wormhole::transit::Abilities,
    },
    FileAccept {
        v: u32,
        id: String,
        hints: magic_wormhole::transit::Hints,
        abilities: magic_wormhole::transit::Abilities,
    },
    FileReject { v: u32, id: String, reason: String },
    FileCancel { v: u32, id: String },
    FileDone { v: u32, id: String, ok: bool },
    Ping { v: u32 },
    Bye { v: u32 },
}

impl AppMsg {
    pub open spec fn spec_version(&self) -> u32 {
        match self {
            AppMsg::Text { v, .. } => *v,
            AppMsg::FileOffer { v, .. } => *v,
            AppMsg::FileAccept { v, .. } => *v,
            AppMsg::FileReject { v, .. } => *v,
            AppMsg::FileCancel { v, .. } => *v,
            AppMsg::FileDone { v, .. } => *v,
            AppMsg::Ping { v } => *v,
            AppMsg::Bye { v } => *v,
        }
    }

    /// The protocol version the message carries.
    pub fn version(&self) -> (r: u32)
        ensures
            r == self.spec_version(),
    {
        match self {
            AppMsg::Text { v, .. } => *v,
            AppMsg::FileOffer { v, .. } => *v,
            AppMsg::FileAccept { v, .. } => *v,
            AppMsg::FileReject { v, .. } => *v,
            AppMsg::FileCancel { v, .. } => *v,
            AppMsg::FileDone { v, .. } => *v,
            AppMsg::Ping { v } => *v,
            AppMsg::Bye { v } => *v,
        }
    }

    /// Accepts exactly the messages of `PROTOCOL_VERSION`; any other
    /// version is a protocol error naming both versions.
    pub fn check_version(&self) -> (r: Result<(), CoreError>)
        ensures
            self.spec_version() == PROTOCOL_VERSION <==> r is Ok,
            r matches Err(e) ==> e matches CoreError::Protocol(m) && m@
                == "unsupported protocol version: got "@ + digits_in_base(
                self.spec_version() as nat,
                10,
            ) + ", want "@ + digits_in_base(PROTOCOL_VERSION as nat, 10),
    {
        let v = self.version();
        if v != PROTOCOL_VERSION {
            let got = decimal(v as u64);
            let want = decimal(PROTOCOL_VERSION as u64);
            let head = join3("unsupported protocol version: got ", got.as_str(), ", want ");
            return Err(CoreError::Protocol(join2(head.as_str(), want.as_str())));
        }
        Ok(())
    }
}

/// An optional string by its characters.
pub open spec fn opt_text(o: Option<String>) -> Option<Seq<char>> {
    match o {
        Some(s) => Some(s@),
        None => None,
    }
}

/// A message by its fields, text as characters.
pub enum AppMsgView {
    Text { v: u32, id: Seq<char>, content: Seq<char>, ts: u64 },
    FileOffer {
        v: u32,
        id: Seq<char>,
        name: Seq<char>,
        size: u64,
        mime: Option<Seq<char>>,
        hints: magic_wormhole::transit::Hints,
        abilities: magic_wormhole::transit::Abilities,
    },
    FileAccept {
        v: u32,
        id: Seq<char>,
        hints: magic_wormhole::transit::Hints,
        abilities: magic_wormhole::transit::Abilities,
    },
    FileReject { v: u32, id: Seq<char>, reason: Seq<char> },
    FileCancel { v: u32, id: Seq<char> },
    FileDone { v: u32, id: Seq<char>, ok: bool },
    Ping { v: u32 },
    Bye { v: u32 },
}

impl View for AppMsg {
    type V = AppMsgView;

    open spec fn view(&self) -> AppMsgView {
        match self {
            AppMsg::Text { v, id, content, ts } => AppMsgView::Text {
                v: *v,
                id: id@,
                content: content@,
                ts: *ts,
            },
            AppMsg::FileOffer { v, id, name, size, mime, hints, abilities } => AppMsgView::FileOffer {
                v: *v,
                id: id@,
                name: name@,
                size: *size,
                mime: opt_text(*mime),
                hints: *hints,
                abilities: *abilities,
            },
            AppMsg::FileAccept { v, id, hints, abilities } => AppMsgView::FileAccept {
                v: *v,
                id: id@,
                hints: *hints,
                abilities: *abilities,
            },
            AppMsg::FileReject { v, id, reason } => AppMsgView::FileReject {
                v: *v,
                id: id@,
                reason: reason@,
            },
            AppMsg::FileCancel { v, id } => AppMsgView::FileCancel { v: *v, id: id@ },
            AppMsg::FileDone { v, id, ok } => AppMsgView::FileDone { v: *v, id: id@, ok: *ok },
            AppMsg::Ping { v } => AppMsgView::Ping { v: *v },
            AppMsg::Bye { v } => AppMsgView::Bye { v: *v },
        }
    }
}

} // verus!
