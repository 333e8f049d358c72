use wormhole_gui::error::CoreError;
use wormhole_gui::protocol::{AppMsg, PROTOCOL_VERSION};

#[test]
fn version_check_passes_v1() {
    let m = AppMsg::Ping { v: 1 };
    assert!(m.check_version().is_ok());
}

#[test]
fn version_check_rejects_unknown() {
    let m = AppMsg::Ping { v: 999 };
    assert!(m.check_version().is_err());
}

#[test]
fn version_error_names_both_versions() {
    let m = AppMsg::FileCancel { v: 0, id: "x".to_string() };
    assert_eq!(m.version(), 0);
    match m.check_version() {
        Err(CoreError::Protocol(s)) => assert_eq!(s, "unsupported protocol version: got 0, want 1"),
        other => panic!("unexpected {other:?}"),
    }
    assert_eq!(AppMsg::Bye { v: PROTOCOL_VERSION }.version(), 1);
}
