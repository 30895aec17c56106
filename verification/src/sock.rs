use vstd::prelude::*;

use crate::messages::{ChatSockMess, ConnMess, DiscMess};

verus! {

/// Why a websocket is closed: a close code and an optional description.
pub struct CloseReason {
    pub code: u16,
    pub description: Option<String>,
}

/// A frame that arrives from the browser side of a websocket.
pub enum WsMessage {
    Text(String),
    Binary(Vec<u8>),
    /// A continuation frame of a fragmented message.
    Continuation,
    Ping(Vec<u8>),
    Pong(Vec<u8>),
    Close(Option<CloseReason>),
    Nop,
}

/// What a chat socket does in answer to a frame.
pub enum SockAction {
    /// Hand the post to the feed.
    Post(ChatSockMess),
    /// Answer with a pong carrying the given data.
    Pong(Vec<u8>),
    /// Tell the feed that the user leaves, then close the socket with the
    /// reason given.
    Leave(DiscMess, Option<CloseReason>),
    /// Nothing to do.
    Ignore,
}

/// The server side of one user in the chat: the address of the feed the
/// user is in, and the name the user goes by there.
pub struct ChatSock<A> {
    /// Address of the feed the user is using.
    pub feed_addr: A,
    /// Name the user is using in the feed.
    pub id: String,
}

impl<A> ChatSock<A> {
    pub fn new(id: String, feed: A) -> (res: Self)
        ensures
            res.feed_addr == feed,
            res.id == id,
    {
        ChatSock { feed_addr: feed, id }
    }

    /// The message by which the socket, once started, registers with the
    /// feed: its own name and the handle through which it is reached.
    pub fn connection_message<R>(&self, addr_res: R) -> (msg: ConnMess<R>)
        ensures
            msg.addr_res == addr_res,
            msg.id@ == self.id@,
    {
        ConnMess { addr_res, id: self.id.clone() }
    }

    /// Answers a frame from the browser: a text is posted to the feed under
    /// the socket's own name, a ping is answered with a pong carrying the
    /// same data, a close makes the user leave the feed and closes the socket
    /// with the same reason; every other frame is ignored.
    pub fn handle_frame(&self, msg: WsMessage) -> (act: SockAction)
        ensures
            match msg {
                WsMessage::Text(txt) => act matches SockAction::Post(post) && post.id@ == self.id@
                    && post.msg@ == txt@,
                WsMessage::Ping(data) => act == SockAction::Pong(data),
                WsMessage::Close(reason) => act matches SockAction::Leave(disc, r) && disc.id@
                    == self.id@ && r == reason,
                _ => act is Ignore,
            },
    {
        match msg {
            WsMessage::Text(txt) => SockAction::Post(ChatSockMess { id: self.id.clone(), msg: txt }),
            WsMessage::Ping(data) => SockAction::Pong(data),
            WsMessage::Close(reason) => SockAction::Leave(DiscMess { id: self.id.clone() }, reason),
            _ => SockAction::Ignore,
        }
    }
}

} // verus!
