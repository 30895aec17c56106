//! Verified core of a small websocket chat room.
//!
//! The chat keeps a feed of connected users, each known by a unique name.
//! Users join, leave and post text; a post that is long enough is handed to
//! every connected user.  The modules below hold the messages that travel
//! between the parts, the feed itself, the per-connection socket logic, the
//! name check, the few request decisions of the web front end, and the
//! code that an old form page computes.

mod counter;
mod feed;
mod id_check;
mod messages;
mod pages;
mod rfc;
mod sock;
mod text;

pub use counter::Contador;
pub use feed::{Feed, FeedEvent, FeedReply};
pub use id_check::IdChecker;
pub use messages::{ChatSockMess, CheckId, ConnMess, DiscMess, WSockMess};
pub use pages::{
    chat_page, css_path, enter_chat_reply, greeting_page, js_path, rfc_page, ChatEntry,
    REFUSED_STATUS,
};
pub use rfc::{assemble_rfc, compute_rfc, form_is_usable, FormRfc};
pub use sock::{ChatSock, CloseReason, SockAction, WsMessage};
pub use text::{can_cut_at, cut_at, split_on};
