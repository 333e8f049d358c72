use std::path::PathBuf;
use wormhole_gui::config::{
    config_path, default_mailbox_relay, default_numeric_code, default_transit_relay,
    default_version, loaded_config, prepared_for_save, Config, ConfigState,
    DEFAULT_MAILBOX_RELAY, DEFAULT_TRANSIT_RELAY, SCHEMA_VERSION,
};
use wormhole_gui::storage::default_download_dir;

fn custom() -> Config {
    Config {
        version: 1,
        download_dir: PathBuf::from("/tmp/in"),
        auto_accept: true,
        numeric_code: false,
        mailbox_relay: "  wss://my.mailbox/v1 ".to_string(),
        transit_relay: "   ".to_string(),
    }
}

#[test]
fn defaults() {
    assert_eq!(default_version(), 2);
    assert!(default_numeric_code());
    assert_eq!(default_mailbox_relay(), DEFAULT_MAILBOX_RELAY);
    assert_eq!(default_transit_relay(), DEFAULT_TRANSIT_RELAY);
    let c = Config::default_with(PathBuf::from("/d"));
    assert_eq!(c.version, SCHEMA_VERSION);
    assert!(!c.auto_accept);
    assert!(c.numeric_code);
    assert_eq!(c.download_dir, PathBuf::from("/d"));
}

#[test]
fn relay_settings_trim_and_fall_back() {
    let st = ConfigState::load(custom());
    assert_eq!(st.mailbox_relay(), "wss://my.mailbox/v1");
    assert_eq!(st.transit_relay(), DEFAULT_TRANSIT_RELAY);
    assert!(!st.numeric_code());
    assert_eq!(st.download_dir(), PathBuf::from("/tmp/in"));
}

#[test]
fn auto_accept_is_always_off() {
    let loaded = loaded_config(Some(custom()), Config::default_with(PathBuf::from("/d")));
    assert!(!loaded.auto_accept);
    assert_eq!(loaded.version, 1);
    let fallback = loaded_config(None, Config::default_with(PathBuf::from("/d")));
    assert_eq!(fallback.download_dir, PathBuf::from("/d"));
    let saved = prepared_for_save(custom());
    assert!(!saved.auto_accept);
    assert_eq!(saved.version, SCHEMA_VERSION);
    assert!(!saved.numeric_code);
}

#[test]
fn snapshot_and_replace() {
    let mut st = ConfigState::load(Config::default_with(PathBuf::from("/a")));
    st.replace(custom());
    let snap = st.snapshot();
    assert_eq!(snap.mailbox_relay, "  wss://my.mailbox/v1 ");
    assert_eq!(snap.download_dir, PathBuf::from("/tmp/in"));
    assert!(snap.auto_accept);
}

#[test]
fn paths() {
    assert_eq!(
        config_path(Some(PathBuf::from("/cfg"))),
        Some(PathBuf::from("/cfg").join("wormhole-gui").join("config.json"))
    );
    assert_eq!(config_path(None), None);
    assert_eq!(
        default_download_dir(Some(PathBuf::from("/home/u"))),
        PathBuf::from("/home/u").join("Downloads").join("Wormhole")
    );
    assert_eq!(default_download_dir(None), PathBuf::from("."));
}
