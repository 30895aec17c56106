use chatroom::{ChatSock, CloseReason, IdChecker, SockAction, WsMessage};

fn sock() -> ChatSock<&'static str> {
    ChatSock::new("ana".to_string(), "feed-address")
}

#[test]
fn chat_sock_new_keeps_fields() {
    let s = sock();
    assert_eq!(s.id, "ana");
    assert_eq!(s.feed_addr, "feed-address");
}

#[test]
fn connection_message_carries_own_name() {
    let m = sock().connection_message(42u8);
    assert_eq!(m.id, "ana");
    assert_eq!(m.addr_res, 42);
}

#[test]
fn text_is_posted_under_own_name() {
    match sock().handle_frame(WsMessage::Text("hola".to_string())) {
        SockAction::Post(p) => {
            assert_eq!(p.id, "ana");
            assert_eq!(p.msg, "hola");
        }
        _ => panic!("expected a post"),
    }
}

#[test]
fn ping_is_answered_with_same_data() {
    match sock().handle_frame(WsMessage::Ping(vec![1, 2, 3])) {
        SockAction::Pong(d) => assert_eq!(d, vec![1, 2, 3]),
        _ => panic!("expected a pong"),
    }
}

#[test]
fn close_makes_user_leave_with_same_reason() {
    let reason = CloseReason { code: 1000, description: Some("bye".to_string()) };
    match sock().handle_frame(WsMessage::Close(Some(reason))) {
        SockAction::Leave(d, r) => {
            assert_eq!(d.id, "ana");
            let r = r.expect("reason kept");
            assert_eq!(r.code, 1000);
            assert_eq!(r.description.as_deref(), Some("bye"));
        }
        _ => panic!("expected leaving"),
    }
    match sock().handle_frame(WsMessage::Close(None)) {
        SockAction::Leave(d, r) => {
            assert_eq!(d.id, "ana");
            assert!(r.is_none());
        }
        _ => panic!("expected leaving"),
    }
}

#[test]
fn other_frames_are_ignored() {
    for m in vec![
        WsMessage::Binary(vec![9]),
        WsMessage::Pong(vec![1]),
        WsMessage::Continuation,
        WsMessage::Nop,
    ] {
        assert!(matches!(sock().handle_frame(m), SockAction::Ignore));
    }
}

#[test]
fn id_checker_starts_free_and_keeps_reply() {
    let mut c = IdChecker::new("ana".to_string(), 7u8);
    assert!(!c.used);
    assert_eq!(c.check_message().id, "ana");
    c.record_reply(Some(true));
    assert!(c.used);
    c.record_reply(None);
    assert!(c.used);
    c.record_reply(Some(false));
    assert!(!c.used);
    assert_eq!(c.id, "ana");
    assert_eq!(c.addr_feed, 7);
}
