use chatroom::{ChatSockMess, CheckId, ConnMess, DiscMess, Feed, FeedEvent, FeedReply, WSockMess};

fn conn(feed: &mut Feed<u32>, name: &str, handle: u32) {
    feed.handle_conn(ConnMess { addr_res: handle, id: name.to_string() });
}

fn taken(feed: &Feed<u32>, name: &str) -> bool {
    feed.handle_check_id(CheckId { id: name.to_string() })
}

fn post(feed: &Feed<u32>, name: &str, text: &str) -> Vec<(u32, String, String)> {
    feed.handle_chat(ChatSockMess { id: name.to_string(), msg: text.to_string() })
        .into_iter()
        .map(|(r, m)| (*r, m.msg, m.sender))
        .collect()
}

#[test]
fn new_feed_has_no_users() {
    let feed: Feed<u32> = Feed::new();
    assert!(!taken(&feed, "ana"));
    assert!(!taken(&feed, ""));
}

#[test]
fn connected_name_is_taken() {
    let mut feed = Feed::new();
    conn(&mut feed, "ana", 1);
    assert!(taken(&feed, "ana"));
    assert!(!taken(&feed, "bob"));
    assert!(!taken(&feed, "Ana"));
}

#[test]
fn left_name_is_free() {
    let mut feed = Feed::new();
    conn(&mut feed, "ana", 1);
    conn(&mut feed, "bob", 2);
    feed.handle_disc(DiscMess { id: "ana".to_string() });
    assert!(!taken(&feed, "ana"));
    assert!(taken(&feed, "bob"));
}

#[test]
fn leaving_unknown_name_changes_nothing() {
    let mut feed = Feed::new();
    conn(&mut feed, "ana", 1);
    feed.handle_disc(DiscMess { id: "zoe".to_string() });
    assert!(taken(&feed, "ana"));
    assert_eq!(post(&feed, "ana", "hello"), vec![(1, "hello".to_string(), "ana".to_string())]);
}

#[test]
fn join_then_leave_restores() {
    let mut feed = Feed::new();
    conn(&mut feed, "ana", 1);
    conn(&mut feed, "bob", 2);
    feed.handle_disc(DiscMess { id: "bob".to_string() });
    assert!(!taken(&feed, "bob"));
    assert_eq!(post(&feed, "ana", "hey"), vec![(1, "hey".to_string(), "ana".to_string())]);
}

#[test]
fn post_reaches_every_user_once_sender_included() {
    let mut feed = Feed::new();
    conn(&mut feed, "ana", 1);
    conn(&mut feed, "bob", 2);
    conn(&mut feed, "cy", 3);
    let got = post(&feed, "bob", "hi all");
    assert_eq!(
        got,
        vec![
            (1, "hi all".to_string(), "bob".to_string()),
            (2, "hi all".to_string(), "bob".to_string()),
            (3, "hi all".to_string(), "bob".to_string()),
        ]
    );
}

#[test]
fn reconnecting_replaces_handle() {
    let mut feed = Feed::new();
    conn(&mut feed, "ana", 1);
    conn(&mut feed, "bob", 2);
    conn(&mut feed, "ana", 9);
    let got = post(&feed, "bob", "yo");
    assert_eq!(got.len(), 2);
    assert_eq!(got[0].0, 9);
    assert_eq!(got[1].0, 2);
}

#[test]
fn short_posts_reach_nobody() {
    let mut feed = Feed::new();
    conn(&mut feed, "ana", 1);
    assert!(post(&feed, "ana", "").is_empty());
    assert!(post(&feed, "ana", "x").is_empty());
    assert_eq!(post(&feed, "ana", "xy").len(), 1);
}

#[test]
fn post_length_counts_bytes() {
    let mut feed = Feed::new();
    conn(&mut feed, "ana", 1);
    // one character, two bytes in UTF-8
    assert_eq!(post(&feed, "ana", "é"), vec![(1, "é".to_string(), "ana".to_string())]);
}

#[test]
fn post_to_empty_feed_reaches_nobody() {
    let feed: Feed<u32> = Feed::new();
    assert!(post(&feed, "ana", "hello").is_empty());
}

#[test]
fn wsockmess_new_keeps_fields() {
    let m = WSockMess::new("text".to_string(), "ana".to_string());
    assert_eq!(m.msg, "text");
    assert_eq!(m.sender, "ana");
}

#[test]
fn handle_dispatches_each_message() {
    let mut feed: Feed<u32> = Feed::new();
    assert!(matches!(
        feed.handle(FeedEvent::Conn(ConnMess { addr_res: 5, id: "ana".to_string() })),
        FeedReply::Done
    ));
    assert!(matches!(
        feed.handle(FeedEvent::Check(CheckId { id: "ana".to_string() })),
        FeedReply::Taken(true)
    ));
    match feed.handle(FeedEvent::Chat(ChatSockMess { id: "ana".to_string(), msg: "hola".to_string() })) {
        FeedReply::Deliver(out) => {
            assert_eq!(out.len(), 1);
            assert_eq!(*out[0].0, 5);
            assert_eq!(out[0].1.msg, "hola");
            assert_eq!(out[0].1.sender, "ana");
        }
        _ => panic!("expected deliveries"),
    }
    assert!(matches!(feed.handle(FeedEvent::Disc(DiscMess { id: "ana".to_string() })), FeedReply::Done));
    assert!(matches!(
        feed.handle(FeedEvent::Check(CheckId { id: "ana".to_string() })),
        FeedReply::Taken(false)
    ));
}

#[test]
fn name_check_after_history() {
    let mut feed: Feed<u32> = Feed::new();
    feed.handle(FeedEvent::Conn(ConnMess { addr_res: 1, id: "ana".to_string() }));
    feed.handle(FeedEvent::Disc(DiscMess { id: "ana".to_string() }));
    feed.handle(FeedEvent::Conn(ConnMess { addr_res: 2, id: "ana".to_string() }));
    feed.handle(FeedEvent::Disc(DiscMess { id: "bob".to_string() }));
    assert!(matches!(
        feed.handle(FeedEvent::Check(CheckId { id: "ana".to_string() })),
        FeedReply::Taken(true)
    ));
}
