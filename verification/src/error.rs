//! Errors that leave the session loop for the UI, with a stable code and
//! English and Chinese messages.

use vstd::prelude::*;
use crate::text::{join2, join3, same_text};

verus! {

#[verifier::external_type_specification]
#[verifier::external_body]
pub struct ExWormholeError(magic_wormhole::WormholeError);

#[verifier::external_type_specification]
#[verifier::external_body]
pub struct ExIoError(std::io::Error);

#[verifier::external_type_specification]
#[verifier::external_body]
pub struct ExJsonError(serde_json::Error);

/// The display text of a magic-wormhole error (its `Display`).
#[verifier::external_body]
fn wormhole_error_text(e: &magic_wormhole::WormholeError) -> String {
    format!("{e}")
}

/// The display text of an I/O error (its `Display`).
#[verifier::external_body]
pub(crate) fn io_error_text(e: &std::io::Error) -> String {
    format!("{e}")
}

/// The display text of a JSON error (its `Display`).
#[verifier::external_body]
pub(crate) fn json_error_text(e: &serde_json::Error) -> String {
    format!("{e}")
}

/// All errors that escape the core session loop to the UI layer.
#[derive(Debug)]
pub enum CoreError {
    Wormhole(magic_wormhole::WormholeError),
    InvalidCode(String),
    PakeFailed,
    Io(std::io::Error),
    Json(serde_json::Error),
    Protocol(String),
    InvalidState,
    ChannelClosed,
    PeerTimeout,
    FolderUnsupported,
    TransitRelayEmpty,
    TransitRelayBadScheme(String),
    TransitRelayIpv6MissingBracket(String),
    TransitRelayIpv6MissingPort(String),
    TransitRelayBadFormat(String),
    TransitRelayBadPort(String),
    TransitRelayHostEmpty,
    ShortCodeMissingDash,
    ShortCodeEmptyPart,
    Other(String),
}

impl CoreError {
    /// The stable machine-readable code of each variant.
    pub open spec fn spec_code(&self) -> Seq<char> {
        match self {
            CoreError::Wormhole(_) => "wormhole"@,
            CoreError::InvalidCode(_) => "invalid_code"@,
            CoreError::PakeFailed => "pake_failed"@,
            CoreError::Io(_) => "io"@,
            CoreError::Json(_) => "json"@,
            CoreError::Protocol(_) => "protocol"@,
            CoreError::InvalidState => "invalid_state"@,
            CoreError::ChannelClosed => "channel_closed"@,
            CoreError::PeerTimeout => "peer_timeout"@,
            CoreError::FolderUnsupported => "folder_unsupported"@,
            CoreError::TransitRelayEmpty => "transit_relay_empty"@,
            CoreError::TransitRelayBadScheme(_) => "transit_relay_bad_scheme"@,
            CoreError::TransitRelayIpv6MissingBracket(_) => "transit_relay_ipv6_bracket"@,
            CoreError::TransitRelayIpv6MissingPort(_) => "transit_relay_ipv6_port"@,
            CoreError::TransitRelayBadFormat(_) => "transit_relay_bad_format"@,
            CoreError::TransitRelayBadPort(_) => "transit_relay_bad_port"@,
            CoreError::TransitRelayHostEmpty => "transit_relay_host_empty"@,
            CoreError::ShortCodeMissingDash => "short_code_missing_dash"@,
            CoreError::ShortCodeEmptyPart => "short_code_empty_part"@,
            CoreError::Other(_) => "other"@,
        }
    }

    /// Whether the variant wraps an error of an outside crate, whose text
    /// is that crate's own.
    pub open spec fn wraps_outside(&self) -> bool {
        self is Wormhole || self is Io || self is Json
    }

    /// English message; for a wrapped outside error, the prefix put before
    /// that error's own text.
    pub open spec fn spec_english(&self) -> Seq<char> {
        match self {
            CoreError::Wormhole(_) => "wormhole error: "@,
            CoreError::InvalidCode(s) => "invalid code: "@ + s@,
            CoreError::PakeFailed => "PAKE failed (code wrong, or attacker)"@,
            CoreError::Io(_) => "io error: "@,
            CoreError::Json(_) => "json error: "@,
            CoreError::Protocol(s) => "protocol error: "@ + s@,
            CoreError::InvalidState => "session not in a valid state for this operation"@,
            CoreError::ChannelClosed => "internal channel closed"@,
            CoreError::PeerTimeout => "peer timeout (heartbeat missed)"@,
            CoreError::FolderUnsupported => "folder transfer not supported; pick files individually"@,
            CoreError::TransitRelayEmpty => "transit relay is empty"@,
            CoreError::TransitRelayBadScheme(s) => "transit relay should not include the "@ + s@
                + " prefix; expected host:port"@,
            CoreError::TransitRelayIpv6MissingBracket(s) =>
                "transit relay IPv6 literal is missing closing bracket: "@ + s@,
            CoreError::TransitRelayIpv6MissingPort(s) => "transit relay IPv6 literal is missing port: "@
                + s@,
            CoreError::TransitRelayBadFormat(s) =>
                "transit relay format error (expected host:port): "@ + s@,
            CoreError::TransitRelayBadPort(s) => "transit relay port is invalid: "@ + s@,
            CoreError::TransitRelayHostEmpty => "transit relay host is empty"@,
            CoreError::ShortCodeMissingDash => "short code is missing the '-' separator"@,
            CoreError::ShortCodeEmptyPart => "short code has an empty nameplate or password section"@,
            CoreError::Other(s) => s@,
        }
    }

    /// Chinese message; for a wrapped outside error, the prefix put before
    /// that error's own text.
    pub open spec fn spec_chinese(&self) -> Seq<char> {
        match self {
            CoreError::Wormhole(_) => "Wormhole 错误："@,
            CoreError::InvalidCode(s) => "无效短码："@ + s@,
            CoreError::PakeFailed => "PAKE 失败（短码错误，或遭到攻击）"@,
            CoreError::Io(_) => "IO 错误："@,
            CoreError::Json(_) => "JSON 错误："@,
            CoreError::Protocol(s) => "协议错误："@ + s@,
            CoreError::InvalidState => "当前会话状态不允许此操作"@,
            CoreError::ChannelClosed => "内部通道已关闭"@,
            CoreError::PeerTimeout => "对方失联（心跳超时）"@,
            CoreError::FolderUnsupported => "暂不支持发送文件夹，请逐个选择文件"@,
            CoreError::TransitRelayEmpty => "transit relay 为空"@,
            CoreError::TransitRelayBadScheme(s) => "transit relay 不应带 "@ + s@
                + " 前缀，应为 host:port 形式"@,
            CoreError::TransitRelayIpv6MissingBracket(s) => "transit relay IPv6 缺少右括号: "@ + s@,
            CoreError::TransitRelayIpv6MissingPort(s) => "transit relay IPv6 缺少端口: "@ + s@,
            CoreError::TransitRelayBadFormat(s) => "transit relay 格式错误 (应为 host:port): "@ + s@,
            CoreError::TransitRelayBadPort(s) => "transit relay 端口无效: "@ + s@,
            CoreError::TransitRelayHostEmpty => "transit relay host 为空"@,
            CoreError::ShortCodeMissingDash => "短码格式错误：缺少 '-' 分隔"@,
            CoreError::ShortCodeEmptyPart => "短码格式错误：nameplate 或 password 为空"@,
            CoreError::Other(s) => s@,
        }
    }

    /// The stable machine-readable code shown to the UI.
    pub fn code(&self) -> (r: &'static str)
        ensures
            r@ == self.spec_code(),
    {
        match self {
            CoreError::Wormhole(_) => "wormhole",
            CoreError::InvalidCode(_) => "invalid_code",
            CoreError::PakeFailed => "pake_failed",
            CoreError::Io(_) => "io",
            CoreError::Json(_) => "json",
            CoreError::Protocol(_) => "protocol",
            CoreError::InvalidState => "invalid_state",
            CoreError::ChannelClosed => "channel_closed",
            CoreError::PeerTimeout => "peer_timeout",
            CoreError::FolderUnsupported => "folder_unsupported",
            CoreError::TransitRelayEmpty => "transit_relay_empty",
            CoreError::TransitRelayBadScheme(_) => "transit_relay_bad_scheme",
            CoreError::TransitRelayIpv6MissingBracket(_) => "transit_relay_ipv6_bracket",
            CoreError::TransitRelayIpv6MissingPort(_) => "transit_relay_ipv6_port",
            CoreError::TransitRelayBadFormat(_) => "transit_relay_bad_format",
            CoreError::TransitRelayBadPort(_) => "transit_relay_bad_port",
            CoreError::TransitRelayHostEmpty => "transit_relay_host_empty",
            CoreError::ShortCodeMissingDash => "short_code_missing_dash",
            CoreError::ShortCodeEmptyPart => "short_code_empty_part",
            CoreError::Other(_) => "other",
        }
    }

    /// English, developer-facing message (what `Display` shows in logs).
    pub fn message(&self) -> (r: String)
        ensures
            !self.wraps_outside() ==> r@ == self.spec_english(),
            self.wraps_outside() ==> r@.take(self.spec_english().len() as int)
                == self.spec_english() && r@.len() >= self.spec_english().len(),
    {
        let r = match self {
            CoreError::Wormhole(e) => join2("wormhole error: ", wormhole_error_text(e).as_str()),
            CoreError::InvalidCode(s) => join2("invalid code: ", s.as_str()),
            CoreError::PakeFailed => "PAKE failed (code wrong, or attacker)".to_owned(),
            CoreError::Io(e) => join2("io error: ", io_error_text(e).as_str()),
            CoreError::Json(e) => join2("json error: ", json_error_text(e).as_str()),
            CoreError::Protocol(s) => join2("protocol error: ", s.as_str()),
            CoreError::InvalidState => "session not in a valid state for this operation".to_owned(),
            CoreError::ChannelClosed => "internal channel closed".to_owned(),
            CoreError::PeerTimeout => "peer timeout (heartbeat missed)".to_owned(),
            CoreError::FolderUnsupported =>
                "folder transfer not supported; pick files individually".to_owned(),
            CoreError::TransitRelayEmpty => "transit relay is empty".to_owned(),
            CoreError::TransitRelayBadScheme(s) => join3(
                "transit relay should not include the ",
                s.as_str(),
                " prefix; expected host:port",
            ),
            CoreError::TransitRelayIpv6MissingBracket(s) => join2(
                "transit relay IPv6 literal is missing closing bracket: ",
                s.as_str(),
            ),
            CoreError::TransitRelayIpv6MissingPort(s) => join2(
                "transit relay IPv6 literal is missing port: ",
                s.as_str(),
            ),
            CoreError::TransitRelayBadFormat(s) => join2(
                "transit relay format error (expected host:port): ",
                s.as_str(),
            ),
            CoreError::TransitRelayBadPort(s) => join2("transit relay port is invalid: ", s.as_str()),
            CoreError::TransitRelayHostEmpty => "transit relay host is empty".to_owned(),
            CoreError::ShortCodeMissingDash => "short code is missing the '-' separator".to_owned(),
            CoreError::ShortCodeEmptyPart =>
                "short code has an empty nameplate or password section".to_owned(),
            CoreError::Other(s) => s.as_str().to_owned(),
        };
        proof {
            if self.wraps_outside() {
                assert(r@.take(self.spec_english().len() as int) =~= self.spec_english());
            }
        }
        r
    }

    /// Chinese user-facing message.
    fn zh(&self) -> (r: String)
        ensures
            !self.wraps_outside() ==> r@ == self.spec_chinese(),
            self.wraps_outside() ==> r@.take(self.spec_chinese().len() as int)
                == self.spec_chinese() && r@.len() >= self.spec_chinese().len(),
    {
        let r = match self {
            CoreError::Wormhole(e) => join2("Wormhole 错误：", wormhole_error_text(e).as_str()),
            CoreError::InvalidCode(s) => join2("无效短码：", s.as_str()),
            CoreError::PakeFailed => "PAKE 失败（短码错误，或遭到攻击）".to_owned(),
            CoreError::Io(e) => join2("IO 错误：", io_error_text(e).as_str()),
            CoreError::Json(e) => join2("JSON 错误：", json_error_text(e).as_str()),
            CoreError::Protocol(s) => join2("协议错误：", s.as_str()),
            CoreError::InvalidState => "当前会话状态不允许此操作".to_owned(),
            CoreError::ChannelClosed => "内部通道已关闭".to_owned(),
            CoreError::PeerTimeout => "对方失联（心跳超时）".to_owned(),
            CoreError::FolderUnsupported => "暂不支持发送文件夹，请逐个选择文件".to_owned(),
            CoreError::TransitRelayEmpty => "transit relay 为空".to_owned(),
            CoreError::TransitRelayBadScheme(s) => join3(
                "transit relay 不应带 ",
                s.as_str(),
                " 前缀，应为 host:port 形式",
            ),
            CoreError::TransitRelayIpv6MissingBracket(s) => join2(
                "transit relay IPv6 缺少右括号: ",
                s.as_str(),
            ),
            CoreError::TransitRelayIpv6MissingPort(s) => join2(
                "transit relay IPv6 缺少端口: ",
                s.as_str(),
            ),
            CoreError::TransitRelayBadFormat(s) => join2(
                "transit relay 格式错误 (应为 host:port): ",
                s.as_str(),
            ),
            CoreError::TransitRelayBadPort(s) => join2("transit relay 端口无效: ", s.as_str()),
            CoreError::TransitRelayHostEmpty => "transit relay host 为空".to_owned(),
            CoreError::ShortCodeMissingDash => "短码格式错误：缺少 '-' 分隔".to_owned(),
            CoreError::ShortCodeEmptyPart => "短码格式错误：nameplate 或 password 为空".to_owned(),
            CoreError::Other(s) => s.as_str().to_owned(),
        };
        proof {
            if self.wraps_outside() {
                assert(r@.take(self.spec_chinese().len() as int) =~= self.spec_chinese());
            }
        }
        r
    }

    /// User-facing message in the UI language `lang`: Chinese for `zh`,
    /// English for any other value.
    pub fn localize(&self, lang: &str) -> (r: String)
        ensures
            lang@ == "zh"@ && !self.wraps_outside() ==> r@ == self.spec_chinese(),
            lang@ != "zh"@ && !self.wraps_outside() ==> r@ == self.spec_english(),
            lang@ == "zh"@ && self.wraps_outside() ==> r@.take(self.spec_chinese().len() as int)
                == self.spec_chinese(),
            lang@ != "zh"@ && self.wraps_outside() ==> r@.take(self.spec_english().len() as int)
                == self.spec_english(),
    {
        if same_text(lang, "zh") {
            self.zh()
        } else {
            self.message()
        }
    }
}

} // verus!
