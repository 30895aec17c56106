use vstd::prelude::*;

use crate::messages::CheckId;

verus! {

/// Asks the feed whether a name is already in use, and keeps the answer.
pub struct IdChecker<A> {
    /// The name to check.
    pub id: String,
    /// Address of the feed to ask.
    pub addr_feed: A,
    /// Whether the feed has reported the name as taken.
    pub used: bool,
}

impl<A> IdChecker<A> {
    /// A checker that has no answer yet, and so holds the name as free.
    pub fn new(id: String, addr_feed: A) -> (res: Self)
        ensures
            res.id == id,
            res.addr_feed == addr_feed,
            !res.used,
    {
        IdChecker { id, addr_feed, used: false }
    }

    /// The question sent to the feed as soon as the checker starts.
    pub fn check_message(&self) -> (msg: CheckId)
        ensures
            msg.id@ == self.id@,
    {
        CheckId { id: self.id.clone() }
    }

    /// Keeps the feed's answer; when the question could not be delivered
    /// (`None`) the checker stays as it was.
    pub fn record_reply(&mut self, reply: Option<bool>)
        ensures
            final(self).id == old(self).id,
            final(self).addr_feed == old(self).addr_feed,
            final(self).used == match reply {
                Some(taken) => taken,
                None => old(self).used,
            },
    {
        if let Some(taken) = reply {
            self.used = taken;
        }
    }
}

} // verus!
