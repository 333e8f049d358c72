use magic_wormhole::transit::{Abilities, Hints, TransitConnector};
use std::path::PathBuf;
use wormhole_gui::error::CoreError;
use wormhole_gui::protocol::AppMsg;
use wormhole_gui::session::{
    accept_message, closed_reason, describe_offer, error_event, id_from_nanos, join_error_from, joiner_connect_error,
    make_id,
    millis_from_nanos, mime_guess, now_ms, offer_message, recv_finished, send_finished,
    text_actions, Action, Cancelled, Direction, Evt, PeerStep, TaskReport, Transfers,
};

fn connector() -> TransitConnector {
    smol::block_on(magic_wormhole::transit::init(Abilities::FORCE_RELAY, None, vec![]))
        .expect("relay-only connector")
}

fn offer(id: &str, name: &str, size: u64) -> AppMsg {
    AppMsg::FileOffer {
        v: 1,
        id: id.to_string(),
        name: name.to_string(),
        size,
        mime: None,
        hints: Hints::default(),
        abilities: Abilities::FORCE_RELAY,
    }
}

fn actions(step: Result<PeerStep, CoreError>) -> Vec<Action> {
    match step {
        Ok(PeerStep::Continue(a)) => a,
        Ok(PeerStep::End) => panic!("unexpected end"),
        Err(e) => panic!("unexpected error {e:?}"),
    }
}

fn describe(a: &Action) -> String {
    match a {
        Action::Send(m) => format!("send {}", msg_name(m)),
        Action::SendChecked(m) => format!("send! {}", msg_name(m)),
        Action::Emit(e) => format!("emit {e:?}"),
        Action::Cancel(_) => "cancel".to_string(),
        Action::StartSend(j) => format!("start-send {} {} {}", j.id, j.size, j.path.display()),
        Action::StartRecv(j) => format!("start-recv {} {} {}", j.id, j.size, j.save_path.display()),
    }
}

fn msg_name(m: &AppMsg) -> String {
    match m {
        AppMsg::Text { id, content, .. } => format!("text {id} {content}"),
        AppMsg::FileOffer { id, name, size, .. } => format!("offer {id} {name} {size}"),
        AppMsg::FileAccept { id, .. } => format!("accept {id}"),
        AppMsg::FileReject { id, reason, .. } => format!("reject {id} {reason}"),
        AppMsg::FileCancel { id, .. } => format!("cancel {id}"),
        AppMsg::FileDone { id, ok, .. } => format!("done {id} {ok}"),
        AppMsg::Ping { .. } => "ping".to_string(),
        AppMsg::Bye { .. } => "bye".to_string(),
    }
}

fn all(a: &[Action]) -> Vec<String> {
    a.iter().map(describe).collect()
}

#[test]
fn peer_text_and_control_messages() {
    let mut t = Transfers::new();
    let a = actions(t.receive(AppMsg::Text { v: 1, id: "7".into(), content: "你好".into(), ts: 9 }));
    assert_eq!(all(&a), vec![format!("emit {:?}", Evt::TextReceived { id: "7".into(), content: "你好".into(), ts: 9 })]);
    assert!(actions(t.receive(AppMsg::Ping { v: 1 })).is_empty());
    assert!(matches!(t.receive(AppMsg::Bye { v: 1 }), Ok(PeerStep::End)));
    assert!(matches!(t.receive(AppMsg::Ping { v: 2 }), Err(CoreError::Protocol(_))));
}

#[test]
fn incoming_offer_then_local_reject() {
    let mut t = Transfers::new();
    let a = actions(t.receive(offer("f1", "a.txt", 3)));
    assert_eq!(all(&a), vec![format!("emit {:?}", Evt::FileOffer { id: "f1".into(), name: "a.txt".into(), size: 3, mime: None })]);
    assert_eq!(t.incoming_name("f1"), Some("a.txt".to_string()));
    let r = t.reject("f1".into(), "user_reject".into());
    assert_eq!(all(&r), vec![
        "send reject f1 user_reject".to_string(),
        format!("emit {:?}", Evt::FileCancelled { id: "f1".into(), by: Cancelled::Local }),
    ]);
    assert_eq!(t.incoming_name("f1"), None);
    // Rejecting again does nothing.
    assert!(t.reject("f1".into(), "x".into()).is_empty());
}

#[test]
fn receive_starts_once_and_cancel_signals_the_task() {
    let mut t = Transfers::new();
    let _ = actions(t.receive(offer("f1", "a.bin", 5)));
    assert!(t.start_receive("nope", connector(), PathBuf::from("/tmp/x")).is_none());
    let job = t.start_receive("f1", connector(), PathBuf::from("/tmp/a.bin")).unwrap();
    assert_eq!((job.id.as_str(), job.size), ("f1", 5));
    assert_eq!(job.save_path, PathBuf::from("/tmp/a.bin"));
    let c = t.cancel("f1".into());
    assert_eq!(all(&c), vec![
        "cancel".to_string(),
        "send cancel f1".to_string(),
        format!("emit {:?}", Evt::FileCancelled { id: "f1".into(), by: Cancelled::Local }),
    ]);
    match &c[0] {
        Action::Cancel(tx) => assert!(tx.try_send(()).is_ok()),
        _ => panic!("expected a cancel"),
    }
    assert!(job.cancel_rx.try_recv().is_ok());
    assert!(t.cancel("f1".into()).is_empty());
}

#[test]
fn outgoing_offer_accept_and_done() {
    let mut t = Transfers::new();
    let conn = connector();
    let msg = offer_message(&"o1".to_string(), &"doc.pdf".to_string(), 10, &Some("application/pdf".to_string()), &conn);
    assert_eq!(msg_name(&msg), "offer o1 doc.pdf 10");
    let e = t.record_offer("o1".into(), PathBuf::from("/tmp/doc.pdf"), "doc.pdf".into(), 10, conn);
    assert_eq!(format!("{e:?}"), format!("{:?}", Evt::FileOfferSent { id: "o1".into(), name: "doc.pdf".into(), size: 10 }));
    let acc = AppMsg::FileAccept { v: 1, id: "o1".into(), hints: Hints::default(), abilities: Abilities::FORCE_RELAY };
    let a = actions(t.receive(acc));
    assert_eq!(all(&a), vec![
        format!("emit {:?}", Evt::FileAccepted { id: "o1".into() }),
        "start-send o1 10 /tmp/doc.pdf".to_string(),
    ]);
    // A repeated acceptance starts nothing.
    let again = AppMsg::FileAccept { v: 1, id: "o1".into(), hints: Hints::default(), abilities: Abilities::FORCE_RELAY };
    assert!(actions(t.receive(again)).is_empty());
    let d = actions(t.receive(AppMsg::FileDone { v: 1, id: "o1".into(), ok: true }));
    assert_eq!(all(&d), vec![format!(
        "emit {:?}",
        Evt::FileDone { id: "o1".into(), ok: true, dir: Direction::Out, save_path: None }
    )]);
    assert!(t.cancel("o1".into()).is_empty());
}

#[test]
fn peer_cancel_and_reject() {
    let mut t = Transfers::new();
    let _ = actions(t.receive(offer("x", "a", 1)));
    let c = actions(t.receive(AppMsg::FileCancel { v: 1, id: "x".into() }));
    assert_eq!(all(&c), vec![format!("emit {:?}", Evt::FileCancelled { id: "x".into(), by: Cancelled::Peer })]);
    assert_eq!(t.incoming_name("x"), None);
    let r = actions(t.receive(AppMsg::FileReject { v: 1, id: "zz".into(), reason: "busy".into() }));
    assert_eq!(all(&r), vec![format!("emit {:?}", Evt::FileError { id: "zz".into(), message: "对方拒绝: busy".into() })]);
}

#[test]
fn text_limits() {
    let a = text_actions("hello".into(), "id1".into(), 42);
    assert_eq!(all(&a), vec![
        "send! text id1 hello".to_string(),
        format!("emit {:?}", Evt::TextSent { id: "id1".into(), content: "hello".into(), ts: 42 }),
    ]);
    let big = "x".repeat(524_289);
    let a = text_actions(big, "id2".into(), 1);
    assert_eq!(all(&a), vec![format!(
        "emit {:?}",
        Evt::Error { code: "text_too_long".into(), message: "text exceeds 524288 bytes; not yet supported in v0.1".into() }
    )]);
    assert_eq!(text_actions("y".repeat(524_288), "i".into(), 0).len(), 2);
}

#[test]
fn offers_describe_the_file() {
    let (n, m) = describe_offer(false, Some("Setup.EXE".into())).unwrap();
    assert_eq!((n.as_str(), m.as_deref()), ("Setup.EXE", Some("application/x-msdownload")));
    let (n, m) = describe_offer(false, None).unwrap();
    assert_eq!((n.as_str(), m), ("file", None));
    match describe_offer(true, Some("dir".into())) {
        Err(CoreError::Other(s)) => assert_eq!(s, "v0.1 does not support directories; pick a single file"),
        other => panic!("unexpected {other:?}"),
    }
    let a = accept_message(&"q".to_string(), &connector());
    assert_eq!(msg_name(&a), "accept q");
}

#[test]
fn mime_guesses() {
    assert_eq!(mime_guess("photo.JPG").as_deref(), Some("image/jpeg"));
    assert_eq!(mime_guess("a.jpeg").as_deref(), Some("image/jpeg"));
    assert_eq!(mime_guess("notes.md").as_deref(), Some("text/plain"));
    assert_eq!(mime_guess("x.tar.gz"), None);
    assert_eq!(mime_guess("run.ps1").as_deref(), Some("application/x-msdownload"));
    assert_eq!(mime_guess("exe").as_deref(), Some("application/x-msdownload"));
    assert_eq!(mime_guess("noext"), None);
}

#[test]
fn task_outcomes() {
    let ok = send_finished("s".into(), 8, Ok(()));
    assert_eq!(ok.len(), 1);
    assert!(matches!(&ok[0], TaskReport::Emit(Evt::FileProgress { bytes: 8, total: 8, dir: Direction::Out, .. })));
    let failed = send_finished("s".into(), 8, Err(CoreError::Other("boom".into())));
    assert!(matches!(&failed[0], TaskReport::Outbox(AppMsg::FileCancel { v: 1, id }) if id == "s"));
    assert!(matches!(&failed[1], TaskReport::Emit(Evt::FileError { id, message }) if id == "s" && message == "boom"));
    let done = recv_finished("r".into(), "/tmp/r.bin".into(), Ok(()));
    assert!(matches!(&done[0], TaskReport::Outbox(AppMsg::FileDone { v: 1, ok: true, .. })));
    assert!(matches!(&done[1], TaskReport::Emit(Evt::FileDone { ok: true, dir: Direction::In, save_path: Some(p), .. }) if p == "/tmp/r.bin"));
}

#[test]
fn events_for_errors_and_close() {
    match error_event(&CoreError::InvalidState) {
        Evt::Error { code, message } => {
            assert_eq!(code, "invalid_state");
            assert_eq!(message, "session not in a valid state for this operation");
        }
        other => panic!("unexpected {other:?}"),
    }
    assert_eq!(closed_reason(&Ok(())), "ok");
    assert_eq!(closed_reason(&Err(CoreError::ChannelClosed)), "internal channel closed");
}

#[test]
fn ids_and_clock() {
    assert_eq!(id_from_nanos(0), "0");
    assert_eq!(id_from_nanos(255), "ff");
    assert_eq!(id_from_nanos(0x1a2b), "1a2b");
    assert_eq!(millis_from_nanos(1_999_999), 1);
    assert!(now_ms() > 1_600_000_000_000);
    assert!(make_id().chars().all(|c| c.is_ascii_hexdigit()));
}

#[test]
fn joiner_errors_single_out_key_confirmation() {
    assert!(matches!(
        joiner_connect_error(magic_wormhole::WormholeError::PakeFailed),
        CoreError::PakeFailed
    ));
    assert!(matches!(
        joiner_connect_error(magic_wormhole::WormholeError::Crypto),
        CoreError::Wormhole(magic_wormhole::WormholeError::Crypto)
    ));
}

#[test]
fn join_errors_follow_the_key_confirmation_answer() {
    assert!(matches!(
        join_error_from(magic_wormhole::WormholeError::Crypto, true),
        CoreError::PakeFailed
    ));
    assert!(matches!(
        join_error_from(magic_wormhole::WormholeError::Crypto, false),
        CoreError::Wormhole(magic_wormhole::WormholeError::Crypto)
    ));
}

#[test]
fn cancelling_an_accepted_send_reaches_its_task() {
    let mut t = Transfers::new();
    let _ = t.record_offer("o2".into(), PathBuf::from("/tmp/b.bin"), "b.bin".into(), 4, connector());
    let acc = AppMsg::FileAccept { v: 1, id: "o2".into(), hints: Hints::default(), abilities: Abilities::FORCE_RELAY };
    let a = actions(t.receive(acc));
    let job = match a.into_iter().nth(1) {
        Some(Action::StartSend(j)) => j,
        _ => panic!("expected a send job"),
    };
    assert_eq!(job.path, PathBuf::from("/tmp/b.bin"));
    let c = t.cancel("o2".into());
    match &c[0] {
        Action::Cancel(tx) => assert!(tx.try_send(()).is_ok()),
        _ => panic!("expected a cancel"),
    }
    assert!(job.cancel_rx.try_recv().is_ok());
}
