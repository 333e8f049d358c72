use wormhole_gui::error::CoreError;
use wormhole_gui::transfer::{
    cancelled_error, parse_transit_relay, progress_due, transit_key_purpose, RecordStep,
    RecvProgress, SendProgress,
};

fn other_message(r: Result<(String, u16), CoreError>) -> String {
    match r {
        Err(CoreError::Other(m)) => m,
        other => panic!("expected an error message, got {other:?}"),
    }
}

#[test]
fn plain_host_port() {
    let (h, p) = parse_transit_relay("example.com:4001").unwrap();
    assert_eq!(h, "example.com");
    assert_eq!(p, 4001);
}

#[test]
fn strips_tcp_scheme() {
    let (h, p) = parse_transit_relay("tcp://example.com:4001").unwrap();
    assert_eq!(h, "example.com");
    assert_eq!(p, 4001);
    let (h, p) = parse_transit_relay("tcp:example.com:4001").unwrap();
    assert_eq!(h, "example.com");
    assert_eq!(p, 4001);
}

#[test]
fn ipv6_literal() {
    let (h, p) = parse_transit_relay("[::1]:4001").unwrap();
    assert_eq!(h, "::1");
    assert_eq!(p, 4001);
}

#[test]
fn rejects_mailbox_scheme() {
    for bad in ["wss://mailbox.example/v1", "ws://example:4000/v1", "http://x:1"] {
        assert!(parse_transit_relay(bad).is_err(), "should reject {bad} as transit");
    }
}

#[test]
fn rejects_missing_port_or_empty() {
    assert!(parse_transit_relay("example.com").is_err());
    assert!(parse_transit_relay(":4001").is_err());
    assert!(parse_transit_relay("example.com:99999").is_err());
    assert!(parse_transit_relay("").is_err());
    assert!(parse_transit_relay("  ").is_err());
}

#[test]
fn relay_error_messages() {
    assert_eq!(other_message(parse_transit_relay("   ")), "transit relay 为空");
    assert_eq!(
        other_message(parse_transit_relay("https://relay:443")),
        "transit relay 不应带 https:// 前缀，应为 host:port 形式"
    );
    assert_eq!(
        other_message(parse_transit_relay(" [::1 ")),
        "transit relay IPv6 缺少右括号:  [::1 "
    );
    assert_eq!(other_message(parse_transit_relay("[::1]")), "transit relay IPv6 缺少端口: [::1]");
    assert_eq!(
        other_message(parse_transit_relay("example.com")),
        "transit relay 格式错误 (应为 host:port): example.com"
    );
    assert_eq!(other_message(parse_transit_relay("host:")), "transit relay 端口无效: ");
    assert_eq!(other_message(parse_transit_relay("host:70000")), "transit relay 端口无效: 70000");
    assert_eq!(other_message(parse_transit_relay(":4001")), "transit relay host 为空");
}

#[test]
fn relay_whitespace_and_plus_port() {
    let (h, p) = parse_transit_relay("  relay.example:80 \n").unwrap();
    assert_eq!((h.as_str(), p), ("relay.example", 80));
    let (h, p) = parse_transit_relay("relay:+65535").unwrap();
    assert_eq!((h.as_str(), p), ("relay", 65535));
    let (h, p) = parse_transit_relay("a:b:1").unwrap();
    assert_eq!((h.as_str(), p), ("a:b", 1));
    assert!(parse_transit_relay("relay:-1").is_err());
}

#[test]
fn relay_round_trip_example() {
    let (h, p) = parse_transit_relay("relay.mw.leastauthority.com:4001").unwrap();
    assert_eq!(format!("{h}:{p}"), "relay.mw.leastauthority.com:4001");
    for pfx in ["", "tcp:", "tcp://"] {
        for host in ["relay.example", "my_relay", "a", "x/y", "tcp2"] {
            for port in [0u16, 1, 4001, 65535] {
                let parsed = parse_transit_relay(&format!("{pfx}{host}:{port}")).unwrap();
                assert_eq!(parsed, (host.to_string(), port));
            }
        }
    }
}

#[test]
fn send_progress_checks_declared_size() {
    let mut s = SendProgress::new(10);
    s.record(4);
    s.record(6);
    assert_eq!(s.sent(), 10);
    assert!(s.finish().is_ok());
    let mut short = SendProgress::new(10);
    short.record(3);
    match short.finish() {
        Err(CoreError::Protocol(m)) => assert_eq!(m, "size mismatch: streamed 3, declared 10"),
        other => panic!("unexpected {other:?}"),
    }
}

#[test]
fn receive_never_writes_past_declared_size() {
    let mut r = RecvProgress::new(10);
    assert!(!r.complete());
    assert!(matches!(r.accept_record(6), RecordStep::Write(6)));
    match r.accept_record(7) {
        RecordStep::Overshoot { keep, error: CoreError::Protocol(m) } => {
            assert_eq!(keep, 4);
            assert_eq!(m, "sender overshot: declared 10, wrote at least 13");
        }
        _ => panic!("expected an overshoot"),
    }
    assert_eq!(r.got(), 10);
    assert!(r.complete());
}

#[test]
fn progress_throttle_and_cancel() {
    assert!(!progress_due(99));
    assert!(progress_due(100));
    match cancelled_error() {
        CoreError::Other(m) => assert_eq!(m, "cancelled by user"),
        other => panic!("unexpected {other:?}"),
    }
    assert_eq!(transit_key_purpose("lothar.com/wormhole/text-or-file-xfer"), "lothar.com/wormhole/text-or-file-xfer/transit-key");
}
