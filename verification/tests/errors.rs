use wormhole_gui::error::CoreError;

#[test]
fn error_codes_are_stable() {
    assert_eq!(CoreError::PakeFailed.code(), "pake_failed");
    assert_eq!(CoreError::TransitRelayIpv6MissingBracket("x".into()).code(), "transit_relay_ipv6_bracket");
    assert_eq!(CoreError::Other("x".into()).code(), "other");
    assert_eq!(CoreError::ShortCodeMissingDash.code(), "short_code_missing_dash");
}

#[test]
fn english_and_chinese_messages() {
    let e = CoreError::InvalidCode("12-ab".into());
    assert_eq!(e.message(), "invalid code: 12-ab");
    assert_eq!(e.localize("zh"), "无效短码：12-ab");
    assert_eq!(e.localize("en"), "invalid code: 12-ab");
    assert_eq!(e.localize("fr"), "invalid code: 12-ab");
    assert_eq!(
        CoreError::TransitRelayBadScheme("ws://".into()).localize("zh"),
        "transit relay 不应带 ws:// 前缀，应为 host:port 形式"
    );
    assert_eq!(CoreError::ShortCodeEmptyPart.localize("zh"), "短码格式错误：nameplate 或 password 为空");
    assert_eq!(CoreError::Other("自定义".into()).localize("zh"), "自定义");
}

#[test]
fn wrapped_errors_keep_their_own_text() {
    let io = std::io::Error::new(std::io::ErrorKind::NotFound, "gone");
    let e = CoreError::Io(io);
    assert_eq!(e.code(), "io");
    assert_eq!(e.message(), "io error: gone");
    assert_eq!(e.localize("zh"), "IO 错误：gone");
}

#[test]
fn codes_follow_the_variant_not_the_payload() {
    assert_eq!(CoreError::Other("a".into()).code(), CoreError::Other("b".into()).code());
    assert_ne!(CoreError::Other("a".into()).code(), CoreError::Protocol("a".into()).code());
    assert_ne!(CoreError::TransitRelayBadPort("1".into()).code(), CoreError::TransitRelayBadFormat("1".into()).code());
}
