//! Rooms and the per-member outbound mailbox.
//!
//! A room is the fanout scope of one resource identifier: an unordered set
//! of member identities, each with the bounded mailbox through which
//! messages are pushed to its peer.  A blocked or slow member must never
//! stall delivery to the others, so a full mailbox rejects a message
//! instead of growing without bound.

use vstd::prelude::*;

verus! {

/// A bounded outbound mailbox.  `offer` rejects when the box is full; the
/// owning transport task drains it.
pub struct Mailbox {
    /// Queued outbound messages, oldest first.
    pub queue: Vec<String>,
    /// Capacity bound; `queue` never grows past it.
    pub cap: usize,
}

/// Spec mirror of `Mailbox`.
pub ghost struct MailboxV {
    pub queue: Seq<Seq<char>>,
    pub cap: nat,
}

impl View for Mailbox {
    type V = MailboxV;

    open spec fn view(&self) -> MailboxV {
        MailboxV { queue: self.queue@.map_values(|s: String| s@), cap: self.cap as nat }
    }
}

/// A mailbox never holds more than its capacity.
pub open spec fn mailbox_wf(mb: MailboxV) -> bool {
    mb.queue.len() <= mb.cap
}

/// A mailbox after a message is offered: appended when there is room,
/// unchanged when full (the member misses the message; nobody waits).
pub open spec fn offered(mb: MailboxV, msg: Seq<char>) -> MailboxV {
    if mb.queue.len() < mb.cap {
        MailboxV { queue: mb.queue.push(msg), ..mb }
    } else {
        mb
    }
}

impl Mailbox {
    /// An empty mailbox with the given capacity bound.
    pub fn new(cap: usize) -> (r: Mailbox)
        ensures
            r@.cap == cap,
            r@.queue == Seq::<Seq<char>>::empty(),
            mailbox_wf(r@),
    {
        let r = Mailbox { queue: Vec::new(), cap };
        proof {
            assert(r@.queue =~= Seq::<Seq<char>>::empty());
        }
        r
    }

    /// Offers a message: accepted and queued when there is room, rejected
    /// when the box is full.
    pub fn offer(&mut self, msg: String) -> (accepted: bool)
        ensures
            final(self)@ == offered(old(self)@, msg@),
            accepted == (old(self)@.queue.len() < old(self)@.cap),
    {
        if self.queue.len() < self.cap {
            self.queue.push(msg);
            proof {
                assert(self@.queue =~= old(self)@.queue.push(msg@));
            }
            true
        } else {
            false
        }
    }

    /// How many messages are queued.
    pub fn len(&self) -> (n: usize)
        ensures
            n == self@.queue.len(),
    {
        self.queue.len()
    }

    /// Takes every queued message out, oldest first, leaving the box empty.
    pub fn drain(&mut self) -> (msgs: Vec<String>)
        ensures
            final(self)@.queue == Seq::<Seq<char>>::empty(),
            final(self)@.cap == old(self)@.cap,
            msgs@.map_values(|s: String| s@) == old(self)@.queue,
    {
        let mut msgs: Vec<String> = Vec::new();
        core::mem::swap(&mut msgs, &mut self.queue);
        proof {
            assert(self@.queue =~= Seq::<Seq<char>>::empty());
            assert(msgs@.map_values(|s: String| s@) =~= old(self)@.queue);
        }
        msgs
    }
}

/// One admitted member's session: its outbound mailbox and the credentials
/// it presented.
pub struct Session {
    /// The mailbox through which messages reach this member's peer.
    pub mailbox: Mailbox,
    /// The bearer token the member authenticated with.
    pub token: String,
    /// When that token expires.
    pub token_expiry: usize,
}

/// Spec mirror of `Session`.
pub ghost struct SessionV {
    pub mailbox: MailboxV,
    pub token: Seq<char>,
    pub token_expiry: nat,
}

impl View for Session {
    type V = SessionV;

    open spec fn view(&self) -> SessionV {
        SessionV {
            mailbox: self.mailbox@,
            token: self.token@,
            token_expiry: self.token_expiry as nat,
        }
    }
}

/// The room of one resource identifier: its members, each with a session.
pub struct Room {
    /// Members, keyed by identity.
    pub users: Vec<(i64, Session)>,
    /// The resource identifier this room is bound to.
    pub script_id: i64,
}

/// Spec mirror of `Room`.
pub ghost struct RoomV {
    pub users: Seq<(int, SessionV)>,
    pub script_id: int,
}

impl View for Room {
    type V = RoomV;

    open spec fn view(&self) -> RoomV {
        RoomV {
            users: self.users@.map_values(|p: (i64, Session)| (p.0 as int, p.1@)),
            script_id: self.script_id as int,
        }
    }
}

/// Member identities within a room are unique.
pub open spec fn room_wf(r: RoomV) -> bool {
    forall|i: int, j: int|
        0 <= i < j < r.users.len() ==> (#[trigger] r.users[i]).0 != (#[trigger] r.users[j]).0
}

/// Whether `u` is a member of the room.
pub open spec fn room_has(r: RoomV, u: int) -> bool {
    exists|i: int| 0 <= i < r.users.len() && (#[trigger] r.users[i]).0 == u
}

/// The set of member identities.
pub open spec fn room_members(r: RoomV) -> Set<int> {
    r.users.map_values(|p: (int, SessionV)| p.0).to_set()
}

/// The index of `uid` within a member list (meaningful when the member is
/// present and identities are unique).
pub open spec fn user_index(users: Seq<(int, SessionV)>, uid: int) -> int {
    choose|k: int| 0 <= k < users.len() && (#[trigger] users[k]).0 == uid
}

impl Room {
    /// A room holding exactly its creating member.
    pub fn new(user: (i64, Session), script_id: i64) -> (r: Room)
        ensures
            r@.script_id == script_id,
            r@.users == seq![(user.0 as int, user.1@)],
            room_wf(r@),
            room_has(r@, user.0 as int),
    {
        let mut users: Vec<(i64, Session)> = Vec::new();
        users.push(user);
        let r = Room { users, script_id };
        proof {
            assert(r@.users =~= seq![(user.0 as int, user.1@)]);
            assert(r@.users[0].0 == user.0 as int);
        }
        r
    }

    /// Whether `user_id` is a member.
    pub fn has_user(&self, user_id: i64) -> (b: bool)
        ensures
            b == room_has(self@, user_id as int),
    {
        let n = self.users.len();
        let mut i: usize = 0;
        while i < n
            invariant
                i <= n,
                n == self.users.len(),
                forall|k: int| 0 <= k < i ==> (#[trigger] self@.users[k]).0 != user_id as int,
            decreases n - i,
        {
            if self.users[i].0 == user_id {
                proof {
                    assert((self@.users[i as int]).0 == user_id as int);
                }
                return true;
            }
            i = i + 1;
        }
        false
    }

    /// Finds the member entry of `user_id`, if any.
    pub fn find_user(&self, user_id: i64) -> (r: Option<usize>)
        requires
            room_wf(self@),
        ensures
            match r {
                Some(k) => k < self@.users.len() && self@.users[k as int].0 == user_id as int
                    && user_index(self@.users, user_id as int) == k as int && room_has(
                    self@,
                    user_id as int,
                ),
                None => !room_has(self@, user_id as int),
            },
    {
        let n = self.users.len();
        let mut k: usize = 0;
        while k < n
            invariant
                k <= n,
                n == self.users.len(),
                room_wf(self@),
                forall|j: int| 0 <= j < k ==> (#[trigger] self@.users[j]).0 != user_id as int,
            decreases n - k,
        {
            if self.users[k].0 == user_id {
                proof {
                    assert((self@.users[k as int]).0 == user_id as int);
                    let k2 = user_index(self@.users, user_id as int);
                    assert(0 <= k2 < self@.users.len() && self@.users[k2].0 == user_id as int);
                    if k2 != k as int {
                        assert(false);
                    }
                }
                return Some(k);
            }
            k = k + 1;
        }
        None
    }
}

impl Default for Room {
    /// An empty room bound to no resource yet.
    fn default() -> (r: Room)
        ensures
            r@.users == Seq::<(int, SessionV)>::empty(),
            r@.script_id == 0,
            room_wf(r@),
    {
        let r = Room { users: Vec::new(), script_id: 0 };
        proof {
            assert(r@.users =~= Seq::<(int, SessionV)>::empty());
        }
        r
    }
}

} // verus!
