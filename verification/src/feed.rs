use vstd::prelude::*;
use vstd::utf8::encode_utf8;

use crate::messages::{ChatSockMess, CheckId, ConnMess, DiscMess, WSockMess};

verus! {

/// The map of names to recipients that a list of entries describes; a later
/// entry for a name overrides an earlier one.
pub open spec fn entries_map<R>(s: Seq<(Seq<char>, R)>) -> Map<Seq<char>, R>
    decreases s.len(),
{
    if s.len() == 0 {
        Map::empty()
    } else {
        entries_map(s.drop_last()).insert(s.last().0, s.last().1)
    }
}

/// No name occurs twice among the entries.
pub open spec fn names_unique<R>(s: Seq<(Seq<char>, R)>) -> bool {
    forall|i: int, j: int|
        0 <= i < s.len() && 0 <= j < s.len() && i != j ==> #[trigger] s[i].0 != #[trigger] s[j].0
}

/// Whether a post is long enough to be handed on: its length in UTF-8
/// bytes, taken as an `i32`, exceeds one.
pub open spec fn post_is_long(text: Seq<char>) -> bool {
    ((encode_utf8(text).len() as usize) as i32) > 1
}

proof fn lemma_entries_map_index<R>(s: Seq<(Seq<char>, R)>)
    requires
        names_unique(s),
    ensures
        forall|i: int|
            0 <= i < s.len() ==> #[trigger] entries_map(s).contains_key(s[i].0) && entries_map(
                s,
            )[s[i].0] == s[i].1,
        forall|k: Seq<char>| #[trigger]
            entries_map(s).contains_key(k) ==> exists|i: int| 0 <= i < s.len() && s[i].0 == k,
        entries_map(s).dom().finite(),
        entries_map(s).len() == s.len(),
    decreases s.len(),
{
    if s.len() > 0 {
        let t = s.drop_last();
        let n = s.len() - 1;
        assert(names_unique(t)) by {
            assert forall|i: int, j: int|
                0 <= i < t.len() && 0 <= j < t.len() && i != j implies #[trigger] t[i].0
                != #[trigger] t[j].0 by {
                assert(t[i] == s[i]);
                assert(t[j] == s[j]);
            }
        }
        lemma_entries_map_index(t);
        let k = s[n].0;
        if entries_map(t).contains_key(k) {
            let i = choose|i: int| 0 <= i < t.len() && t[i].0 == k;
            assert(t[i] == s[i]);
            assert(s[i].0 == s[n].0);
        }
        assert(!entries_map(t).contains_key(k));
        assert forall|i: int| 0 <= i < s.len() implies #[trigger] entries_map(s).contains_key(
            s[i].0,
        ) && entries_map(s)[s[i].0] == s[i].1 by {
            if i < n {
                assert(t[i] == s[i]);
                assert(s[i].0 != s[n].0);
            }
        }
        assert forall|k2: Seq<char>| #[trigger]
            entries_map(s).contains_key(k2) implies exists|i: int| 0 <= i < s.len() && s[i].0 == k2 by {
            if k2 == k {
                assert(s[n].0 == k2);
            } else {
                assert(entries_map(t).contains_key(k2));
                let i = choose|i: int| 0 <= i < t.len() && t[i].0 == k2;
                assert(t[i] == s[i]);
            }
        }
    }
}

proof fn lemma_entries_map_update<R>(s: Seq<(Seq<char>, R)>, i: int, v: R)
    requires
        names_unique(s),
        0 <= i < s.len(),
    ensures
        names_unique(s.update(i, (s[i].0, v))),
        entries_map(s.update(i, (s[i].0, v))) == entries_map(s).insert(s[i].0, v),
{
    let u = s.update(i, (s[i].0, v));
    assert forall|a: int| 0 <= a < s.len() implies #[trigger] u[a].0 == s[a].0 by {}
    assert(names_unique(u)) by {
        assert forall|a: int, b: int|
            0 <= a < u.len() && 0 <= b < u.len() && a != b implies #[trigger] u[a].0
            != #[trigger] u[b].0 by {
            assert(u[a].0 == s[a].0);
            assert(u[b].0 == s[b].0);
        }
    }
    lemma_entries_map_index(s);
    lemma_entries_map_index(u);
    let m = entries_map(s).insert(s[i].0, v);
    assert forall|k: Seq<char>| #[trigger] entries_map(u).contains_key(k) <==> m.contains_key(k) by {
        if entries_map(u).contains_key(k) {
            let j = choose|j: int| 0 <= j < u.len() && u[j].0 == k;
            assert(s[j].0 == k);
        }
        if entries_map(s).contains_key(k) {
            let j = choose|j: int| 0 <= j < s.len() && s[j].0 == k;
            assert(u[j].0 == k);
        }
        if k == s[i].0 {
            assert(u[i].0 == k);
        }
    }
    assert forall|k: Seq<char>| #[trigger] entries_map(u).contains_key(k) implies entries_map(u)[k]
        == m[k] by {
        let j = choose|j: int| 0 <= j < u.len() && u[j].0 == k;
        if j != i {
            assert(u[j] == s[j]);
        }
    }
    assert(entries_map(u) =~= m);
}

proof fn lemma_entries_map_remove<R>(s: Seq<(Seq<char>, R)>, i: int)
    requires
        names_unique(s),
        0 <= i < s.len(),
    ensures
        names_unique(s.remove(i)),
        entries_map(s.remove(i)) == entries_map(s).remove(s[i].0),
{
    let u = s.remove(i);
    s.remove_ensures(i);
    assert(names_unique(u)) by {
        assert forall|a: int, b: int|
            0 <= a < u.len() && 0 <= b < u.len() && a != b implies #[trigger] u[a].0
            != #[trigger] u[b].0 by {
            let a2 = if a < i {
                a
            } else {
                a + 1
            };
            let b2 = if b < i {
                b
            } else {
                b + 1
            };
            assert(u[a] == s[a2]);
            assert(u[b] == s[b2]);
        }
    }
    lemma_entries_map_index(s);
    lemma_entries_map_index(u);
    let m = entries_map(s).remove(s[i].0);
    assert forall|k: Seq<char>| #[trigger] entries_map(u).contains_key(k) <==> m.contains_key(k) by {
        if entries_map(u).contains_key(k) {
            let j = choose|j: int| 0 <= j < u.len() && u[j].0 == k;
            let j2 = if j < i {
                j
            } else {
                j + 1
            };
            assert(u[j] == s[j2]);
            assert(s[j2].0 != s[i].0);
        }
        if m.contains_key(k) {
            let j = choose|j: int| 0 <= j < s.len() && s[j].0 == k;
            assert(j != i);
            let j2 = if j < i {
                j
            } else {
                j - 1
            };
            assert(u[j2] == s[j]);
        }
    }
    assert forall|k: Seq<char>| #[trigger] entries_map(u).contains_key(k) implies entries_map(u)[k]
        == m[k] by {
        let j = choose|j: int| 0 <= j < u.len() && u[j].0 == k;
        let j2 = if j < i {
            j
        } else {
            j + 1
        };
        assert(u[j] == s[j2]);
    }
    assert(entries_map(u) =~= m);
}

/// The feed: every user connected to the chat, by name, with the handle
/// through which the user's socket is reached.
///
/// `R` is the type of that handle.  No name occurs twice (see `wf`).
pub struct Feed<R> {
    clients: Vec<(String, R)>,
}

impl<R> Feed<R> {
    /// The connected users in the order in which they are kept, each as
    /// name and handle.
    pub closed spec fn entries(&self) -> Seq<(Seq<char>, R)> {
        self.clients@.map_values(|e: (String, R)| (e.0@, e.1))
    }

    /// Well-formedness: every name is connected at most once.
    pub open spec fn wf(&self) -> bool {
        names_unique(self.entries())
    }

    /// An empty feed.
    pub fn new() -> (res: Self)
        ensures
            res.wf(),
            res@ == Map::<Seq<char>, R>::empty(),
            res.entries().len() == 0,
    {
        let res = Feed { clients: Vec::new() };
        assert(res.entries() =~= Seq::<(Seq<char>, R)>::empty());
        res
    }

    /// A user connects: the name now leads to the given handle, replacing
    /// any handle that the name had before.
    pub fn handle_conn(&mut self, msg: ConnMess<R>)
        requires
            old(self).wf(),
        ensures
            final(self).wf(),
            final(self)@ == old(self)@.insert(msg.id@, msg.addr_res),
            final(self)@ == after_event(old(self)@, FeedEvent::Conn(msg)),
    {
        let id = msg.id;
        let addr_res = msg.addr_res;
        let ghost e0 = self.entries();
        let n = self.clients.len();
        let mut i: usize = 0;
        while i < n
            invariant
                n == self.clients.len(),
                self.entries() == e0,
                e0 == old(self).entries(),
                names_unique(e0),
                id == msg.id,
                addr_res == msg.addr_res,
                i <= n,
                forall|j: int| 0 <= j < i ==> e0[j].0 != id@,
            decreases n - i,
        {
            let same = self.clients[i].0 == id;
            proof {
                assert(e0[i as int].0 == self.clients@[i as int].0@);
            }
            if same {
                assert(e0[i as int].0 == id@);
                let ghost old_clients = self.clients@;
                self.clients.set(i, (id, addr_res));
                proof {
                    assert forall|j: int| 0 <= j < e0.len() implies #[trigger] self.entries()[j]
                        == e0.update(i as int, (e0[i as int].0, msg.addr_res))[j] by {
                        if j != i {
                            assert(self.clients@[j] == old_clients[j]);
                        }
                    }
                    lemma_entries_map_update(e0, i as int, msg.addr_res);
                    assert(self.entries() =~= e0.update(i as int, (e0[i as int].0, msg.addr_res)));
                }
                return;
            }
            i = i + 1;
        }
        self.clients.push((id, addr_res));
        proof {
            let e1 = self.entries();
            assert(e1 =~= e0.push((msg.id@, msg.addr_res)));
            assert(e1.drop_last() =~= e0);
            assert(names_unique(e1)) by {
                assert forall|a: int, b: int|
                    0 <= a < e1.len() && 0 <= b < e1.len() && a != b implies #[trigger] e1[a].0
                    != #[trigger] e1[b].0 by {
                    if a < e0.len() {
                        assert(e1[a] == e0[a]);
                    }
                    if b < e0.len() {
                        assert(e1[b] == e0[b]);
                    }
                }
            }
        }
    }

    /// Whether the name is in use: true if the user is taken, false
    /// otherwise.
    pub fn handle_check_id(&self, msg: CheckId) -> (taken: bool)
        requires
            self.wf(),
        ensures
            taken == self@.contains_key(msg.id@),
    {
        let e0 = Ghost(self.entries());
        proof {
            lemma_entries_map_index(e0@);
        }
        let n = self.clients.len();
        let mut i: usize = 0;
        while i < n
            invariant
                n == self.clients.len(),
                self.entries() == e0@,
                names_unique(e0@),
                i <= n,
                forall|j: int| 0 <= j < i ==> e0@[j].0 != msg.id@,
            decreases n - i,
        {
            proof {
                assert(e0@[i as int].0 == self.clients@[i as int].0@);
            }
            if self.clients[i].0 == msg.id {
                proof {
                    lemma_entries_map_index(e0@);
                }
                return true;
            }
            i = i + 1;
        }
        false
    }

    /// A user leaves: the name is no longer connected.  Leaving with a name
    /// that is not connected changes nothing.
    pub fn handle_disc(&mut self, msg: DiscMess)
        requires
            old(self).wf(),
        ensures
            final(self).wf(),
            final(self)@ == old(self)@.remove(msg.id@),
            final(self)@ == after_event(old(self)@, FeedEvent::Disc(msg)),
    {
        let ghost e0 = self.entries();
        proof {
            lemma_entries_map_index(e0);
        }
        let n = self.clients.len();
        let mut i: usize = 0;
        while i < n
            invariant
                n == self.clients.len(),
                self.entries() == e0,
                e0 == old(self).entries(),
                names_unique(e0),
                i <= n,
                forall|j: int| 0 <= j < i ==> e0[j].0 != msg.id@,
            decreases n - i,
        {
            proof {
                assert(e0[i as int].0 == self.clients@[i as int].0@);
            }
            if self.clients[i].0 == msg.id {
                self.clients.remove(i);
                proof {
                    lemma_entries_map_remove(e0, i as int);
                    assert(self.entries() =~= e0.remove(i as int));
                }
                return;
            }
            i = i + 1;
        }
        proof {
            assert(!entries_map(e0).contains_key(msg.id@));
            assert(entries_map(e0).remove(msg.id@) =~= entries_map(e0));
        }
    }

    /// A post from a user.  When the post is long enough, every connected
    /// user, the sender included, is to get it once, in the order in which
    /// the users are kept; otherwise nobody gets it.
    pub fn handle_chat(&self, msg: ChatSockMess) -> (out: Vec<(&R, WSockMess)>)
        requires
            self.wf(),
        ensures
            post_is_long(msg.msg@) ==> out@.len() == self.entries().len(),
            !post_is_long(msg.msg@) ==> out@.len() == 0,
            forall|i: int|
                0 <= i < out@.len() ==> *(#[trigger] out@[i]).0 == self.entries()[i].1
                    && out@[i].1.msg@ == msg.msg@ && out@[i].1.sender@ == msg.id@,
    {
        let mut out: Vec<(&R, WSockMess)> = Vec::new();
        let long = (msg.msg.as_str().len() as i32) > 1;
        if long {
            let n = self.clients.len();
            let mut i: usize = 0;
            while i < n
                invariant
                    n == self.clients.len(),
                    i <= n,
                    out@.len() == i,
                    forall|j: int|
                        0 <= j < i ==> *(#[trigger] out@[j]).0 == self.entries()[j].1
                            && out@[j].1.msg@ == msg.msg@ && out@[j].1.sender@ == msg.id@,
                decreases n - i,
            {
                let entry = &self.clients[i];
                out.push((&entry.1, WSockMess::new(msg.msg.clone(), msg.id.clone())));
                i = i + 1;
            }
        }
        out
    }
}

/// The feed's answer to a message it handles.
pub enum FeedReply<'a, R> {
    /// A connection or disconnection was handled; there is nothing to answer.
    Done,
    /// The answer to a name check: whether the name is taken.
    Taken(bool),
    /// The deliveries of a post: each handle with the message for it.
    Deliver(Vec<(&'a R, WSockMess)>),
}

impl<R> Feed<R> {
    /// Handles one message as the feed's actor does: the connected users
    /// become `after_event` of what they were, and the answer is the one of
    /// the handler for that kind of message.
    pub fn handle(&mut self, ev: FeedEvent<R>) -> (reply: FeedReply<'_, R>)
        requires
            old(self).wf(),
        ensures
            final(self).wf(),
            final(self)@ == after_event(old(self)@, ev),
            match ev {
                FeedEvent::Check(m) => reply == FeedReply::<R>::Taken(old(self)@.contains_key(m.id@)),
                FeedEvent::Chat(m) => reply matches FeedReply::Deliver(out) && (post_is_long(m.msg@)
                    ==> out@.len() == old(self).entries().len()) && (!post_is_long(m.msg@)
                    ==> out@.len() == 0) && forall|i: int|
                    0 <= i < out@.len() ==> *(#[trigger] out@[i]).0 == old(self).entries()[i].1
                        && out@[i].1.msg@ == m.msg@ && out@[i].1.sender@ == m.id@,
                _ => reply is Done,
            },
    {
        match ev {
            FeedEvent::Conn(m) => {
                self.handle_conn(m);
                FeedReply::Done
            },
            FeedEvent::Disc(m) => {
                self.handle_disc(m);
                FeedReply::Done
            },
            FeedEvent::Check(m) => FeedReply::Taken(self.handle_check_id(m)),
            FeedEvent::Chat(m) => FeedReply::Deliver(self.handle_chat(m)),
        }
    }
}

impl<R> View for Feed<R> {
    type V = Map<Seq<char>, R>;

    /// The connected users: each name with its handle.
    open spec fn view(&self) -> Map<Seq<char>, R> {
        entries_map(self.entries())
    }
}

/// Which posts are handed on depends on their UTF-8 byte length alone: a
/// post of at least two bytes (up to the largest `i32`) is handed to every
/// connected user, however long it is, and a post of at most one byte is
/// handed to nobody.
pub proof fn law_post_handed_on_iff_two_bytes(text: Seq<char>)
    ensures
        2 <= encode_utf8(text).len() <= i32::MAX ==> post_is_long(text),
        encode_utf8(text).len() <= 1 ==> !post_is_long(text),
{
}

/// Something the feed is told: one of the four messages it handles.
pub enum FeedEvent<R> {
    Conn(ConnMess<R>),
    Disc(DiscMess),
    Check(CheckId),
    Chat(ChatSockMess),
}

/// The connected users after the feed handles one message: a connection
/// adds or replaces the name, a disconnection removes it, a name check and
/// a post change nothing.
pub open spec fn after_event<R>(users: Map<Seq<char>, R>, ev: FeedEvent<R>) -> Map<Seq<char>, R> {
    match ev {
        FeedEvent::Conn(m) => users.insert(m.id@, m.addr_res),
        FeedEvent::Disc(m) => users.remove(m.id@),
        FeedEvent::Check(_) => users,
        FeedEvent::Chat(_) => users,
    }
}

/// The connected users after the feed handles the messages in order.
pub open spec fn after_events<R>(users: Map<Seq<char>, R>, evs: Seq<FeedEvent<R>>) -> Map<
    Seq<char>,
    R,
>
    decreases evs.len(),
{
    if evs.len() == 0 {
        users
    } else {
        after_event(after_events(users, evs.drop_last()), evs.last())
    }
}

/// The message is a connection under the name.
pub open spec fn joins<R>(ev: FeedEvent<R>, name: Seq<char>) -> bool {
    match ev {
        FeedEvent::Conn(m) => m.id@ == name,
        _ => false,
    }
}

/// The message is a disconnection under the name.
pub open spec fn leaves<R>(ev: FeedEvent<R>, name: Seq<char>) -> bool {
    match ev {
        FeedEvent::Disc(m) => m.id@ == name,
        _ => false,
    }
}

/// Some connection under the name was handled, and no disconnection under
/// it after the last such connection.
pub open spec fn joined_and_stayed<R>(evs: Seq<FeedEvent<R>>, name: Seq<char>) -> bool {
    exists|i: int|
        0 <= i < evs.len() && #[trigger] joins(evs[i], name) && forall|j: int|
            i < j < evs.len() ==> !#[trigger] leaves(evs[j], name)
}

/// Starting from an empty feed, after any sequence of messages a name check
/// answers true exactly when a connection under the name was handled and
/// no disconnection under it came after the last such connection.
pub proof fn law_name_taken_after_history<R>(evs: Seq<FeedEvent<R>>, name: Seq<char>)
    ensures
        after_events(Map::<Seq<char>, R>::empty(), evs).contains_key(name) <==> joined_and_stayed(
            evs,
            name,
        ),
    decreases evs.len(),
{
    if evs.len() > 0 {
        let t = evs.drop_last();
        let n = evs.len() - 1;
        let e = evs[n];
        law_name_taken_after_history(t, name);
        if joins(e, name) {
            assert forall|j: int| n < j < evs.len() implies !#[trigger] leaves(evs[j], name) by {}
            assert(joins(evs[n], name));
        } else if leaves(e, name) {
            if joined_and_stayed(evs, name) {
                let i = choose|i: int|
                    0 <= i < evs.len() && #[trigger] joins(evs[i], name) && forall|j: int|
                        i < j < evs.len() ==> !#[trigger] leaves(evs[j], name);
                assert(i != n);
                assert(leaves(evs[n], name));
            }
        } else {
            assert(after_events(Map::<Seq<char>, R>::empty(), evs).contains_key(name)
                == after_events(Map::<Seq<char>, R>::empty(), t).contains_key(name));
            if joined_and_stayed(t, name) {
                let i = choose|i: int|
                    0 <= i < t.len() && #[trigger] joins(t[i], name) && forall|j: int|
                        i < j < t.len() ==> !#[trigger] leaves(t[j], name);
                assert(evs[i] == t[i]);
                assert forall|j: int| i < j < evs.len() implies !#[trigger] leaves(evs[j], name) by {
                    if j < n {
                        assert(evs[j] == t[j]);
                    }
                }
            }
            if joined_and_stayed(evs, name) {
                let i = choose|i: int|
                    0 <= i < evs.len() && #[trigger] joins(evs[i], name) && forall|j: int|
                        i < j < evs.len() ==> !#[trigger] leaves(evs[j], name);
                assert(i != n);
                assert(t[i] == evs[i]);
                assert forall|j: int| i < j < t.len() implies !#[trigger] leaves(t[j], name) by {
                    assert(evs[j] == t[j]);
                }
                assert(joins(t[i], name));
            }
        }
    }
}

/// Once a user has connected under a name, the name is taken and leads to
/// the handle given at connection.
pub proof fn law_connected_name_is_taken<R>(users: Map<Seq<char>, R>, name: Seq<char>, handle: R)
    ensures
        users.insert(name, handle).contains_key(name),
        users.insert(name, handle)[name] == handle,
{
}

/// Once a user has left, the name is free again.
pub proof fn law_left_name_is_free<R>(users: Map<Seq<char>, R>, name: Seq<char>)
    ensures
        !users.remove(name).contains_key(name),
{
}

/// Connecting under a free name and then leaving restores the feed as it
/// was.
pub proof fn law_join_then_leave_restores<R>(users: Map<Seq<char>, R>, name: Seq<char>, handle: R)
    requires
        !users.contains_key(name),
    ensures
        users.insert(name, handle).remove(name) == users,
{
    assert(users.insert(name, handle).remove(name) =~= users);
}

/// Connecting or leaving under one name changes nothing for any other name.
pub proof fn law_other_names_untouched<R>(
    users: Map<Seq<char>, R>,
    name: Seq<char>,
    handle: R,
    other: Seq<char>,
)
    requires
        other != name,
    ensures
        users.insert(name, handle).contains_key(other) == users.contains_key(other),
        users.remove(name).contains_key(other) == users.contains_key(other),
        users.contains_key(other) ==> users.insert(name, handle)[other] == users[other]
            && users.remove(name)[other] == users[other],
{
}

/// The users to whom a post is handed (one per entry, see `handle_chat`)
/// are exactly the connected users, each once: there are as many entries
/// as connected names, every connected name has exactly one entry, and each
/// entry carries the handle under which its name is connected.
pub proof fn law_post_reaches_each_user_once<R>(feed: Feed<R>)
    requires
        feed.wf(),
    ensures
        feed.entries().len() == feed@.len(),
        forall|i: int|
            0 <= i < feed.entries().len() ==> #[trigger] feed@.contains_key(feed.entries()[i].0)
                && feed@[feed.entries()[i].0] == feed.entries()[i].1,
        forall|name: Seq<char>| #[trigger]
            feed@.contains_key(name) ==> exists|i: int|
                0 <= i < feed.entries().len() && feed.entries()[i].0 == name && forall|j: int|
                    0 <= j < feed.entries().len() && feed.entries()[j].0 == name ==> j == i,
{
    let s = feed.entries();
    lemma_entries_map_index(s);
    assert forall|name: Seq<char>| #[trigger] feed@.contains_key(name) implies exists|i: int|
        0 <= i < s.len() && s[i].0 == name && forall|j: int|
            0 <= j < s.len() && s[j].0 == name ==> j == i by {
        let i = choose|i: int| 0 <= i < s.len() && s[i].0 == name;
        assert forall|j: int| 0 <= j < s.len() && s[j].0 == name implies j == i by {
            if j != i {
                assert(s[i].0 != s[j].0);
            }
        }
    }
}

} // verus!
