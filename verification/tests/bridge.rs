use wormhole_gui::bridge::{
    by_str, dir_str, escape_log_line, reject_reason, split_short_code, ui_event, Field,
};
use wormhole_gui::diag::{encode, human, uuid_like};
use wormhole_gui::error::CoreError;
use wormhole_gui::session::{Cancelled, Direction, Evt};

fn field_text(f: &Field) -> String {
    match f {
        Field::Str(s) => format!("s:{s}"),
        Field::U64(n) => format!("n:{n}"),
        Field::Bool(b) => format!("b:{b}"),
        Field::OptStr(o) => format!("o:{o:?}"),
    }
}

fn flat(evt: Evt) -> (String, Vec<String>) {
    let e = ui_event(evt);
    (
        e.name.to_string(),
        e.fields.iter().map(|(k, v)| format!("{k}={}", field_text(v))).collect(),
    )
}

#[test]
fn direction_and_canceller_names() {
    assert_eq!(dir_str(Direction::In), "in");
    assert_eq!(dir_str(Direction::Out), "out");
    assert_eq!(by_str(Cancelled::Local), "self");
    assert_eq!(by_str(Cancelled::Peer), "peer");
}

#[test]
fn ui_events_for_session_events() {
    assert_eq!(flat(Evt::Connected), ("session:connected".to_string(), vec![]));
    assert_eq!(
        flat(Evt::TextReceived { id: "1".into(), content: "hi".into(), ts: 5 }),
        ("msg:text".to_string(), vec!["id=s:1".into(), "content=s:hi".into(), "ts=n:5".into(), "from=s:peer".into()])
    );
    assert_eq!(
        flat(Evt::FileProgress { id: "f".into(), bytes: 3, total: 9, dir: Direction::In }),
        ("file:progress".to_string(), vec!["id=s:f".into(), "bytes=n:3".into(), "total=n:9".into(), "dir=s:in".into()])
    );
    assert_eq!(
        flat(Evt::FileDone { id: "f".into(), ok: true, dir: Direction::Out, save_path: None }),
        ("file:done".to_string(), vec!["id=s:f".into(), "ok=b:true".into(), "dir=s:out".into(), "save_path=o:None".into()])
    );
    assert_eq!(
        flat(Evt::FileCancelled { id: "f".into(), by: Cancelled::Local }),
        ("file:cancelled".to_string(), vec!["id=s:f".into(), "by=s:self".into()])
    );
    assert_eq!(
        flat(Evt::Error { code: "c".into(), message: "m".into() }),
        ("error".to_string(), vec!["code=s:c".into(), "message=s:m".into()])
    );
    assert_eq!(flat(Evt::Code("15-123-456".into())).0, "session:code");
    assert_eq!(flat(Evt::Closed { reason: "ok".into() }).0, "session:closed");
}

#[test]
fn short_codes_split_at_first_dash() {
    let (np, pw) = split_short_code("15-123-456").unwrap();
    assert_eq!((np.as_str(), pw.as_str()), ("15", "123-456"));
    assert!(matches!(split_short_code("15123456"), Err(CoreError::ShortCodeMissingDash)));
    assert!(matches!(split_short_code("-123"), Err(CoreError::ShortCodeEmptyPart)));
    assert!(matches!(split_short_code("15-"), Err(CoreError::ShortCodeEmptyPart)));
}

#[test]
fn log_lines_and_reasons() {
    assert_eq!(escape_log_line("a\nb\r\nc"), "a\\nb\\r\\nc");
    assert_eq!(escape_log_line("plain"), "plain");
    assert_eq!(reject_reason(None), "user_reject");
    assert_eq!(reject_reason(Some("busy".into())), "busy");
}

#[test]
fn hex_and_sizes() {
    assert_eq!(encode(&[0x00, 0xab, 0x10, 0xff]), "00ab10ff");
    assert_eq!(encode(&[]), "");
    assert_eq!(human(0), "0 B");
    assert_eq!(human(1023), "1023 B");
    assert_eq!(human(1536), "1 KB");
    assert_eq!(human(3 * 1048576 + 5), "3 MB");
    let id = uuid_like();
    assert!(!id.is_empty() && id.chars().all(|c| c.is_ascii_hexdigit()));
}

#[test]
fn hex_pairs_read_back_as_bytes() {
    let bytes = [0u8, 9, 10, 15, 16, 171, 255];
    let h = encode(&bytes);
    assert_eq!(h, "00090a0f10abff");
    for (i, b) in bytes.iter().enumerate() {
        assert_eq!(u8::from_str_radix(&h[2 * i..2 * i + 2], 16), Ok(*b));
    }
}
