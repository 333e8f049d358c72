//! Persistent application settings: defaults, the normalisation applied
//! on load and on save, and the relay fallbacks. Reading and writing the
//! JSON file is the host's part.

use vstd::prelude::*;
use crate::storage::{copy_path, path_join};
use crate::text::{chars_of, slice_chars, string_of, trim_ws, trim_ws_bounds};

verus! {

/// Current settings schema version.
pub const SCHEMA_VERSION: u32 = 2;

/// Built-in mailbox (rendezvous) relay.
pub const DEFAULT_MAILBOX_RELAY: &'static str = "wss://mailbox.mw.leastauthority.com/v1";

/// Built-in transit relay.
pub const DEFAULT_TRANSIT_RELAY: &'static str = "relay.mw.leastauthority.com:4001";

pub struct Config {
    pub version: u32,
    pub download_dir: std::path::PathBuf,
    pub auto_accept: bool,
    /// Numeric codes (digits) rather than word codes.
    pub numeric_code: bool,
    /// Custom mailbox relay; blank means the built-in one.
    pub mailbox_relay: String,
    /// Custom transit relay; blank means the built-in one.
    pub transit_relay: String,
}

/// Schema version a settings file without one is read as.
pub fn default_version() -> (r: u32)
    ensures
        r == SCHEMA_VERSION,
{
    SCHEMA_VERSION
}

/// Numeric codes are on for settings files written before the field
/// existed.
pub fn default_numeric_code() -> (r: bool)
    ensures
        r,
{
    true
}

pub fn default_mailbox_relay() -> (r: String)
    ensures
        r@ == DEFAULT_MAILBOX_RELAY@,
{
    DEFAULT_MAILBOX_RELAY.to_owned()
}

pub fn default_transit_relay() -> (r: String)
    ensures
        r@ == DEFAULT_TRANSIT_RELAY@,
{
    DEFAULT_TRANSIT_RELAY.to_owned()
}

/// A relay setting as used: trimmed, and the built-in value when blank.
pub open spec fn effective_relay(value: Seq<char>, default: Seq<char>) -> Seq<char> {
    if trim_ws(value).len() == 0 {
        default
    } else {
        trim_ws(value)
    }
}

fn relay_or_default(value: &String, default: &str) -> (r: String)
    ensures
        r@ == effective_relay(value@, default@),
{
    let v = chars_of(value.as_str());
    let (a, b) = trim_ws_bounds(&v);
    if a == b {
        default.to_owned()
    } else {
        string_of(&slice_chars(&v, a, b))
    }
}

impl Config {
    /// The defaults, with downloads going to `download_dir`.
    pub fn default_with(download_dir: std::path::PathBuf) -> (r: Config)
        ensures
            r.version == SCHEMA_VERSION,
            r.download_dir == download_dir,
            !r.auto_accept,
            r.numeric_code,
            r.mailbox_relay@ == DEFAULT_MAILBOX_RELAY@,
            r.transit_relay@ == DEFAULT_TRANSIT_RELAY@,
    {
        Config {
            version: SCHEMA_VERSION,
            download_dir,
            auto_accept: false,
            numeric_code: true,
            mailbox_relay: default_mailbox_relay(),
            transit_relay: default_transit_relay(),
        }
    }

    /// A copy of the settings, equal to them field by field (the directory
    /// path copied with `PathBuf::clone`).
    pub fn copy(&self) -> (r: Config)
        ensures
            r == *self,
    {
        Config {
            version: self.version,
            download_dir: copy_path(&self.download_dir),
            auto_accept: self.auto_accept,
            numeric_code: self.numeric_code,
            mailbox_relay: self.mailbox_relay.clone(),
            transit_relay: self.transit_relay.clone(),
        }
    }
}

/// The settings in force after startup: the parsed file, or the defaults
/// when there is none or it does not parse; auto-accept is always off in
/// this build.
pub fn loaded_config(parsed: Option<Config>, defaults: Config) -> (r: Config)
    ensures
        !r.auto_accept,
        parsed is None ==> r == (Config { auto_accept: false, ..defaults }),
        parsed matches Some(c) ==> r == (Config { auto_accept: false, ..c }),
{
    let mut c = match parsed {
        Some(c) => c,
        None => defaults,
    };
    c.auto_accept = false;
    c
}

/// Settings as they are saved from the UI: auto-accept off, and the
/// current schema version whatever the UI sent.
pub fn prepared_for_save(cfg: Config) -> (r: Config)
    ensures
        r == (Config { auto_accept: false, version: SCHEMA_VERSION, ..cfg }),
{
    let mut c = cfg;
    c.auto_accept = false;
    c.version = SCHEMA_VERSION;
    c
}

/// The settings file inside the platform configuration directory:
/// `wormhole-gui/config.json`, or `None` when the platform has no such
/// directory. The separator is the platform's, so nothing more is stated
/// of the path.
pub fn config_path(config_dir: Option<std::path::PathBuf>) -> (r: Option<std::path::PathBuf>)
    ensures
        r is Some <==> config_dir is Some,
{
    match config_dir {
        Some(d) => {
            let app = path_join(&d, "wormhole-gui");
            Some(path_join(&app, "config.json"))
        },
        None => None,
    }
}

/// The settings in force for a running application. The host keeps it
/// behind a lock so commands can read and replace it.
pub struct ConfigState(pub Config);

impl ConfigState {
    /// Wraps the settings read at startup.
    pub fn load(cfg: Config) -> (r: ConfigState)
        ensures
            r.0 == cfg,
    {
        ConfigState(cfg)
    }

    pub fn snapshot(&self) -> (r: Config)
        ensures
            r == self.0,
    {
        self.0.copy()
    }

    pub fn replace(&mut self, cfg: Config)
        ensures
            final(self).0 == cfg,
    {
        self.0 = cfg;
    }

    /// Where received files go (a copy of the path).
    pub fn download_dir(&self) -> (r: std::path::PathBuf)
        ensures
            r == self.0.download_dir,
    {
        copy_path(&self.0.download_dir)
    }

    pub fn numeric_code(&self) -> (r: bool)
        ensures
            r == self.0.numeric_code,
    {
        self.0.numeric_code
    }

    /// The configured mailbox URL, trimmed, or the built-in one when the
    /// user has cleared the field.
    pub fn mailbox_relay(&self) -> (r: String)
        ensures
            r@ == effective_relay(self.0.mailbox_relay@, DEFAULT_MAILBOX_RELAY@),
    {
        relay_or_default(&self.0.mailbox_relay, DEFAULT_MAILBOX_RELAY)
    }

    /// Same fallback as `mailbox_relay`, for the transit relay.
    pub fn transit_relay(&self) -> (r: String)
        ensures
            r@ == effective_relay(self.0.transit_relay@, DEFAULT_TRANSIT_RELAY@),
    {
        relay_or_default(&self.0.transit_relay, DEFAULT_TRANSIT_RELAY)
    }
}

} // verus!
