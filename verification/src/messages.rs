use vstd::prelude::*;

verus! {

/// A message for the browser side of a websocket: the text and who sent it.
pub struct WSockMess {
    pub msg: String,
    /// Name of the sending user.
    pub sender: String,
}

impl WSockMess {
    pub fn new(msg: String, sender: String) -> (res: Self)
        ensures
            res.msg == msg,
            res.sender == sender,
    {
        WSockMess { msg, sender }
    }
}

/// Connection message: the first thing a socket tells the feed.
///
/// `R` is the handle through which the feed reaches the connecting socket.
pub struct ConnMess<R> {
    /// Where messages for this user are to be delivered.
    pub addr_res: R,
    /// Name of the user that connects.
    pub id: String,
}

/// Disconnection message: tells the feed that a user is leaving.
pub struct DiscMess {
    pub id: String,
}

/// A post from a user to the feed.
pub struct ChatSockMess {
    /// Name of the user sending.
    pub id: String,
    /// The text sent.
    pub msg: String,
}

/// Asks the feed whether a name is already in use.
pub struct CheckId {
    pub id: String,
}

} // verus!
