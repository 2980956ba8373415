//! The room manager: the single owner of the resource-to-room map.
//!
//! All admission, release and fanout requests are serviced one at a time
//! per resource identifier (the caller serializes them; see the crate
//! docs), so the check-then-act admission sequence below is linearizable:
//! of any number of admission requests for a resource with no room yet,
//! exactly one creates the room and the rest join it.
//!
//! Room creation is two-phase against the durable side-store: `ensure_room`
//! answering `Created` obliges the caller to persist the creation record
//! and, if that write fails, to roll the room back with `abort_create`.

use vstd::prelude::*;
use crate::room::{
    Room,
    RoomV,
    Session,
    SessionV,
    offered,
    room_has,
    room_members,
    room_wf,
    user_index,
};

verus! {

/// Rooms are well formed and no two rooms share a resource identifier.
pub open spec fn rooms_wf(rs: Seq<RoomV>) -> bool {
    &&& forall|i: int| 0 <= i < rs.len() ==> room_wf(#[trigger] rs[i])
    &&& forall|i: int, j: int|
        0 <= i < j < rs.len() ==> (#[trigger] rs[i]).script_id != (#[trigger] rs[j]).script_id
}

/// Whether a room exists for `sid`.
pub open spec fn has_room(rs: Seq<RoomV>, sid: int) -> bool {
    exists|i: int| 0 <= i < rs.len() && (#[trigger] rs[i]).script_id == sid
}

/// The index of `sid`'s room (meaningful when one exists and identifiers
/// are unique).
pub open spec fn room_index(rs: Seq<RoomV>, sid: int) -> int {
    choose|i: int| 0 <= i < rs.len() && (#[trigger] rs[i]).script_id == sid
}

/// The membership set of `sid`'s room; empty when there is none.
pub open spec fn membership(rs: Seq<RoomV>, sid: int) -> Set<int> {
    if has_room(rs, sid) {
        room_members(rs[room_index(rs, sid)])
    } else {
        Set::empty()
    }
}

/// The rooms after an admission request: joining the existing room (a
/// repeated admission of a member is a no-op), or creating one with the
/// requester as sole member.
pub open spec fn spec_ensure(rs: Seq<RoomV>, sid: int, uid: int, s: SessionV) -> Seq<RoomV> {
    if has_room(rs, sid) {
        let i = room_index(rs, sid);
        if room_has(rs[i], uid) {
            rs
        } else {
            rs.update(i, RoomV { users: rs[i].users.push((uid, s)), ..rs[i] })
        }
    } else {
        rs.push(RoomV { script_id: sid, users: seq![(uid, s)] })
    }
}

/// The rooms after a release: the member leaves its room, and a room left
/// with no members is dropped rather than leaked.  Releasing a non-member
/// or an unknown resource is a no-op.
pub open spec fn spec_release(rs: Seq<RoomV>, sid: int, uid: int) -> Seq<RoomV> {
    if has_room(rs, sid) {
        let i = room_index(rs, sid);
        if room_has(rs[i], uid) {
            let users2 = rs[i].users.remove(user_index(rs[i].users, uid));
            if users2.len() == 0 {
                rs.remove(i)
            } else {
                rs.update(i, RoomV { users: users2, ..rs[i] })
            }
        } else {
            rs
        }
    } else {
        rs
    }
}

/// One member's session after a payload is delivered to the room: excluded
/// members are untouched, everyone else has the payload offered to their
/// mailbox (full boxes drop it; nobody blocks anybody).
pub open spec fn deliver(p: (int, SessionV), msg: Seq<char>, exclude: Option<int>) -> (
    int,
    SessionV,
) {
    if exclude == Some(p.0) {
        p
    } else {
        (p.0, SessionV { mailbox: offered(p.1.mailbox, msg), ..p.1 })
    }
}

/// A room after a payload is broadcast into it.
pub open spec fn broadcast_room(r: RoomV, msg: Seq<char>, exclude: Option<int>) -> RoomV {
    RoomV { users: r.users.map_values(|p: (int, SessionV)| deliver(p, msg, exclude)), ..r }
}

/// The rooms after a broadcast to `sid`: only that room's mailboxes change.
pub open spec fn spec_broadcast(
    rs: Seq<RoomV>,
    sid: int,
    msg: Seq<char>,
    exclude: Option<int>,
) -> Seq<RoomV> {
    if has_room(rs, sid) {
        rs.update(room_index(rs, sid), broadcast_room(rs[room_index(rs, sid)], msg, exclude))
    } else {
        rs
    }
}

/// The spec view of an optional member identity.
pub open spec fn opt_id(o: Option<i64>) -> Option<int> {
    match o {
        Some(x) => Some(x as int),
        None => None,
    }
}

/// How an admission request was answered.
#[derive(Clone, Copy, PartialEq, Eq, Structural, Debug)]
pub enum Admission {
    /// No room existed: one was created with the requester as sole member.
    /// The caller now owes the side-store a creation record, and must call
    /// `abort_create` if that write fails.
    Created,
    /// A room existed: the requester was added (or already was a member).
    Joined,
}

/// The single owner of every room.
pub struct RoomManager {
    /// The rooms, at most one per resource identifier.
    pub rooms: Vec<Room>,
}

impl View for RoomManager {
    type V = Seq<RoomV>;

    open spec fn view(&self) -> Seq<RoomV> {
        self.rooms@.map_values(|r: Room| r@)
    }
}

impl RoomManager {
    /// A manager with no rooms.
    pub fn new() -> (r: RoomManager)
        ensures
            r@ == Seq::<RoomV>::empty(),
            rooms_wf(r@),
    {
        let r = RoomManager { rooms: Vec::new() };
        proof {
            assert(r@ =~= Seq::<RoomV>::empty());
        }
        r
    }

    /// Finds the room of `script_id`, if any.
    fn find_room(&self, script_id: i64) -> (r: Option<usize>)
        requires
            rooms_wf(self@),
        ensures
            match r {
                Some(i) => has_room(self@, script_id as int) && i < self@.len() && self@[
                    i as int
                ].script_id == script_id as int && room_index(self@, script_id as int) == i as int,
                None => !has_room(self@, script_id as int),
            },
    {
        let n = self.rooms.len();
        let mut i: usize = 0;
        while i < n
            invariant
                i <= n,
                n == self.rooms.len(),
                self@.len() == n,
                rooms_wf(self@),
                forall|k: int| 0 <= k < i ==> (#[trigger] self@[k]).script_id != script_id as int,
            decreases n - i,
        {
            if self.rooms[i].script_id == script_id {
                proof {
                    assert(self@[i as int].script_id == script_id as int);
                    let j = room_index(self@, script_id as int);
                    assert(0 <= j < self@.len() && self@[j].script_id == script_id as int);
                    if j != i as int {
                        assert(false);
                    }
                }
                return Some(i);
            }
            i = i + 1;
        }
        None
    }

    /// Admits `user_id` into the room of `script_id`: joins the existing
    /// room, or creates one with this member alone.  Exactly the caller
    /// that is answered `Created` created the room.
    pub fn ensure_room(&mut self, script_id: i64, user_id: i64, session: Session) -> (r: Admission)
        requires
            rooms_wf(old(self)@),
        ensures
            final(self)@ == spec_ensure(old(self)@, script_id as int, user_id as int, session@),
            rooms_wf(final(self)@),
            r == Admission::Created <==> !has_room(old(self)@, script_id as int),
            has_room(final(self)@, script_id as int),
            room_has(
                final(self)@[room_index(final(self)@, script_id as int)],
                user_id as int,
            ),
    {
        let found = self.find_room(script_id);
        match found {
            Some(i) => {
                let ghost rs0 = self@;
                let mut room = self.rooms.remove(i);
                if !room.has_user(user_id) {
                    room.users.push((user_id, session));
                    proof {
                        assert(room@.users =~= rs0[i as int].users.push(
                            (user_id as int, session@),
                        ));
                    }
                }
                self.rooms.insert(i, room);
                proof {
                    assert(self@ =~= spec_ensure(rs0, script_id as int, user_id as int, session@));
                    lemma_spec_ensure_wf(rs0, script_id as int, user_id as int, session@);
                }
                Admission::Joined
            },
            None => {
                let ghost rs0 = self@;
                self.rooms.push(Room::new((user_id, session), script_id));
                proof {
                    assert(self@ =~= spec_ensure(rs0, script_id as int, user_id as int, session@));
                    lemma_spec_ensure_wf(rs0, script_id as int, user_id as int, session@);
                }
                Admission::Created
            },
        }
    }

    /// Rolls back a room creation whose side-store record could not be
    /// written: the provisional room, still holding only its creator, is
    /// removed again.
    pub fn abort_create(&mut self, script_id: i64, user_id: i64)
        requires
            rooms_wf(old(self)@),
            has_room(old(self)@, script_id as int),
            old(self)@[room_index(old(self)@, script_id as int)].users.len() == 1,
            old(self)@[room_index(old(self)@, script_id as int)].users[0].0 == user_id as int,
        ensures
            final(self)@ == spec_release(old(self)@, script_id as int, user_id as int),
            rooms_wf(final(self)@),
            !has_room(final(self)@, script_id as int),
    {
        self.release(script_id, user_id);
        proof {
            lemma_release_removes_sole_room(old(self)@, script_id as int, user_id as int);
        }
    }

    /// Removes `user_id` from the room of `script_id`; idempotent, and a
    /// room left empty is dropped.
    pub fn release(&mut self, script_id: i64, user_id: i64)
        requires
            rooms_wf(old(self)@),
        ensures
            final(self)@ == spec_release(old(self)@, script_id as int, user_id as int),
            rooms_wf(final(self)@),
    {
        let found = self.find_room(script_id);
        match found {
            Some(i) => {
                let ghost rs0 = self@;
                let mut room = self.rooms.remove(i);
                let found_user = room.find_user(user_id);
                match found_user {
                    Some(k) => {
                        room.users.remove(k);
                        proof {
                            assert(room@.users =~= rs0[i as int].users.remove(
                                user_index(rs0[i as int].users, user_id as int),
                            ));
                        }
                        if room.users.len() == 0 {
                            proof {
                                assert(self@ =~= spec_release(
                                    rs0,
                                    script_id as int,
                                    user_id as int,
                                ));
                            }
                        } else {
                            self.rooms.insert(i, room);
                            proof {
                                assert(self@ =~= spec_release(
                                    rs0,
                                    script_id as int,
                                    user_id as int,
                                ));
                            }
                        }
                        proof {
                            lemma_spec_release_wf(rs0, script_id as int, user_id as int);
                        }
                    },
                    None => {
                        self.rooms.insert(i, room);
                        proof {
                            assert(!room_has(rs0[i as int], user_id as int));
                            assert(self@ =~= rs0);
                            assert(self@ =~= spec_release(rs0, script_id as int, user_id as int));
                        }
                    },
                }
            },
            None => {
            },
        }
    }

    /// Delivers `payload` to every member of `script_id`'s room except the
    /// excluded sender.  Delivery is best-effort per member: a full mailbox
    /// drops the payload for that member alone and delivery to the others
    /// is unaffected.
    pub fn broadcast(&mut self, script_id: i64, payload: &String, exclude: Option<i64>)
        requires
            rooms_wf(old(self)@),
        ensures
            final(self)@ == spec_broadcast(
                old(self)@,
                script_id as int,
                payload@,
                opt_id(exclude),
            ),
            rooms_wf(final(self)@),
    {
        let found = self.find_room(script_id);
        match found {
            Some(i) => {
                let ghost rs0 = self@;
                let ghost r0 = self@[i as int];
                let mut room = self.rooms.remove(i);
                let n = room.users.len();
                let mut k: usize = 0;
                while k < n
                    invariant
                        k <= n,
                        n == room.users.len(),
                        room@.users.len() == r0.users.len() == n,
                        room@.script_id == r0.script_id,
                        forall|j: int|
                            0 <= j < k ==> room@.users[j] == deliver(
                                #[trigger] r0.users[j],
                                payload@,
                                opt_id(exclude),
                            ),
                        forall|j: int| k <= j < n ==> room@.users[j] == #[trigger] r0.users[j],
                    decreases n - k,
                {
                    let skip = match exclude {
                        Some(x) => room.users[k].0 == x,
                        None => false,
                    };
                    if !skip {
                        let mut entry = room.users.remove(k);
                        entry.1.mailbox.offer(payload.clone());
                        room.users.insert(k, entry);
                        proof {
                            assert(room@.users[k as int] == deliver(
                                r0.users[k as int],
                                payload@,
                                opt_id(exclude),
                            ));
                            assert(forall|j: int|
                                0 <= j < k ==> room@.users[j] == deliver(
                                    #[trigger] r0.users[j],
                                    payload@,
                                    opt_id(exclude),
                                ));
                        }
                    } else {
                        proof {
                            assert(room@.users[k as int] == deliver(
                                r0.users[k as int],
                                payload@,
                                opt_id(exclude),
                            ));
                        }
                    }
                    k = k + 1;
                }
                self.rooms.insert(i, room);
                proof {
                    assert(room@.users =~= broadcast_room(r0, payload@, opt_id(exclude)).users);
                    assert(room@ == broadcast_room(r0, payload@, opt_id(exclude)));
                    assert(self@ =~= spec_broadcast(
                        rs0,
                        script_id as int,
                        payload@,
                        opt_id(exclude),
                    ));
                    lemma_spec_broadcast_wf(rs0, script_id as int, payload@, opt_id(exclude));
                }
            },
            None => {
            },
        }
    }
}

/// An admission preserves well-formedness, leaves every other room as it
/// was, and the requester is a member of the resource's room afterwards.
pub proof fn lemma_spec_ensure_wf(rs: Seq<RoomV>, sid: int, uid: int, s: SessionV)
    requires
        rooms_wf(rs),
    ensures
        rooms_wf(spec_ensure(rs, sid, uid, s)),
        has_room(spec_ensure(rs, sid, uid, s), sid),
        room_index(spec_ensure(rs, sid, uid, s), sid) == (if has_room(rs, sid) {
            room_index(rs, sid)
        } else {
            rs.len() as int
        }),
        room_has(spec_ensure(rs, sid, uid, s)[room_index(spec_ensure(rs, sid, uid, s), sid)], uid),
        forall|u: int|
            has_room(rs, sid) && #[trigger] room_has(rs[room_index(rs, sid)], u) ==> room_has(
                spec_ensure(rs, sid, uid, s)[room_index(spec_ensure(rs, sid, uid, s), sid)],
                u,
            ),
        forall|j: int|
            0 <= j < rs.len() && rs[j].script_id != sid ==> #[trigger] spec_ensure(
                rs,
                sid,
                uid,
                s,
            )[j] == rs[j],
{
    let rs2 = spec_ensure(rs, sid, uid, s);
    if has_room(rs, sid) {
        let i = room_index(rs, sid);
        assert(0 <= i < rs.len() && rs[i].script_id == sid);
        if room_has(rs[i], uid) {
            assert(rs2 =~= rs);
        } else {
            let r2 = RoomV { users: rs[i].users.push((uid, s)), ..rs[i] };
            assert(rs2 == rs.update(i, r2));
            assert(room_wf(r2)) by {
                assert(forall|k: int|
                    0 <= k < rs[i].users.len() ==> (#[trigger] r2.users[k]) == rs[i].users[k]);
                assert(r2.users[rs[i].users.len() as int].0 == uid);
            }
            assert(rs2[i].script_id == sid);
            assert(room_has(rs2[i], uid)) by {
                assert(r2.users[rs[i].users.len() as int].0 == uid);
            }
            assert forall|u: int| room_has(rs[i], u) implies room_has(#[trigger] rs2[i], u) by {
                let k = choose|k: int|
                    0 <= k < rs[i].users.len() && (#[trigger] rs[i].users[k]).0 == u;
                assert((rs2[i].users[k]).0 == u);
            }
        }
        if room_index(rs2, sid) != i {
            assert(false);
        }
    } else {
        let r2 = RoomV { script_id: sid, users: seq![(uid, s)] };
        assert(rs2 == rs.push(r2));
        assert(rs2[rs.len() as int].script_id == sid);
        assert(rs2[rs.len() as int].users[0].0 == uid);
        assert(room_wf(r2));
        assert(rooms_wf(rs2)) by {
            assert(forall|j: int| 0 <= j < rs.len() ==> (#[trigger] rs2[j]) == rs[j]);
        }
        if room_index(rs2, sid) != rs.len() as int {
            assert(false);
        }
        assert(room_has(rs2[rs.len() as int], uid));
    }
}

/// A release preserves well-formedness.
pub proof fn lemma_spec_release_wf(rs: Seq<RoomV>, sid: int, uid: int)
    requires
        rooms_wf(rs),
    ensures
        rooms_wf(spec_release(rs, sid, uid)),
{
    let rs2 = spec_release(rs, sid, uid);
    if has_room(rs, sid) {
        let i = room_index(rs, sid);
        if room_has(rs[i], uid) {
            let k = user_index(rs[i].users, uid);
            assert(0 <= k < rs[i].users.len());
            let users2 = rs[i].users.remove(k);
            if users2.len() == 0 {
                assert(rs2 == rs.remove(i));
                assert(rooms_wf(rs2)) by {
                    assert(forall|j: int|
                        0 <= j < rs2.len() ==> (#[trigger] rs2[j]) == (if j < i {
                            rs[j]
                        } else {
                            rs[j + 1]
                        }));
                }
            } else {
                let r2 = RoomV { users: users2, ..rs[i] };
                assert(rs2 == rs.update(i, r2));
                assert(room_wf(r2)) by {
                    assert(forall|a: int|
                        0 <= a < users2.len() ==> (#[trigger] users2[a]) == (if a < k {
                            rs[i].users[a]
                        } else {
                            rs[i].users[a + 1]
                        }));
                }
            }
        }
    }
}

/// Releasing the sole member of a room removes the room itself: nothing
/// leaks.
pub proof fn lemma_release_removes_sole_room(rs: Seq<RoomV>, sid: int, uid: int)
    requires
        rooms_wf(rs),
        has_room(rs, sid),
        rs[room_index(rs, sid)].users.len() == 1,
        rs[room_index(rs, sid)].users[0].0 == uid,
    ensures
        !has_room(spec_release(rs, sid, uid), sid),
{
    let i = room_index(rs, sid);
    assert(room_has(rs[i], uid));
    let k = user_index(rs[i].users, uid);
    assert(k == 0);
    assert(rs[i].users.remove(0).len() == 0);
    let rs2 = spec_release(rs, sid, uid);
    assert(rs2 == rs.remove(i));
    assert(forall|j: int|
        0 <= j < rs2.len() ==> (#[trigger] rs2[j]) == (if j < i {
            rs[j]
        } else {
            rs[j + 1]
        }));
    if has_room(rs2, sid) {
        let j = room_index(rs2, sid);
        assert(0 <= j < rs2.len() && rs2[j].script_id == sid);
        assert(false);
    }
}

/// A broadcast changes mailboxes only: membership and well-formedness are
/// untouched.
pub proof fn lemma_spec_broadcast_wf(rs: Seq<RoomV>, sid: int, msg: Seq<char>, exclude: Option<int>)
    requires
        rooms_wf(rs),
    ensures
        rooms_wf(spec_broadcast(rs, sid, msg, exclude)),
{
    let rs2 = spec_broadcast(rs, sid, msg, exclude);
    if has_room(rs, sid) {
        let i = room_index(rs, sid);
        let r2 = broadcast_room(rs[i], msg, exclude);
        assert(room_wf(r2)) by {
            assert(forall|k: int|
                0 <= k < rs[i].users.len() ==> (#[trigger] r2.users[k]).0 == rs[i].users[k].0);
        }
        assert(rs2 == rs.update(i, r2));
    }
}

/// Folding a burst of admission requests for one resource through the
/// manager, in the order its per-resource serialization admits them.
pub open spec fn admit_all(rs: Seq<RoomV>, sid: int, users: Seq<(int, SessionV)>) -> Seq<RoomV>
    decreases users.len(),
{
    if users.len() == 0 {
        rs
    } else {
        admit_all(
            spec_ensure(rs, sid, users[0].0, users[0].1),
            sid,
            users.subrange(1, users.len() as int),
        )
    }
}

/// How many of those admissions found no room and so created one.
pub open spec fn creations(rs: Seq<RoomV>, sid: int, users: Seq<(int, SessionV)>) -> nat
    decreases users.len(),
{
    if users.len() == 0 {
        0
    } else {
        (if !has_room(rs, sid) {
            1nat
        } else {
            0nat
        }) + creations(
            spec_ensure(rs, sid, users[0].0, users[0].1),
            sid,
            users.subrange(1, users.len() as int),
        )
    }
}

proof fn lemma_admit_all_members(rs: Seq<RoomV>, sid: int, users: Seq<(int, SessionV)>)
    requires
        rooms_wf(rs),
        has_room(rs, sid),
    ensures
        rooms_wf(admit_all(rs, sid, users)),
        has_room(admit_all(rs, sid, users), sid),
        creations(rs, sid, users) == 0,
        forall|u: int|
            #[trigger] room_has(rs[room_index(rs, sid)], u) ==> room_has(
                admit_all(rs, sid, users)[room_index(admit_all(rs, sid, users), sid)],
                u,
            ),
        forall|k: int|
            0 <= k < users.len() ==> room_has(
                admit_all(rs, sid, users)[room_index(admit_all(rs, sid, users), sid)],
                (#[trigger] users[k]).0,
            ),
    decreases users.len(),
{
    if users.len() > 0 {
        let rs1 = spec_ensure(rs, sid, users[0].0, users[0].1);
        let rest = users.subrange(1, users.len() as int);
        lemma_spec_ensure_wf(rs, sid, users[0].0, users[0].1);
        lemma_admit_all_members(rs1, sid, rest);
        let fin = admit_all(rs, sid, users);
        assert(fin == admit_all(rs1, sid, rest));
        let ri = room_index(fin, sid);
        assert(forall|k: int| 1 <= k < users.len() ==> users[k] == #[trigger] rest[k - 1]);
        assert forall|u: int| #[trigger] room_has(rs[room_index(rs, sid)], u) implies room_has(
            fin[ri],
            u,
        ) by {
            assert(room_has(rs1[room_index(rs1, sid)], u));
            assert(room_has(fin[ri], u));
        }
        assert forall|k: int| 0 <= k < users.len() implies room_has(
            fin[ri],
            (#[trigger] users[k]).0,
        ) by {
            if k == 0 {
                assert(room_has(rs1[room_index(rs1, sid)], users[0].0));
                assert(room_has(fin[ri], users[0].0));
            } else {
                assert(users[k] == rest[k - 1]);
                assert(room_has(fin[ri], rest[k - 1].0));
            }
        }
    }
}

/// LAW: any number of admission requests for a resource that has no room
/// yet, serviced in the manager's per-resource order, create exactly one
/// room, and every requester ends up a member of it: no duplicate rooms, no
/// lost members.
pub proof fn lemma_admission_coalesces(rs: Seq<RoomV>, sid: int, users: Seq<(int, SessionV)>)
    requires
        rooms_wf(rs),
        !has_room(rs, sid),
        users.len() > 0,
    ensures
        creations(rs, sid, users) == 1,
        rooms_wf(admit_all(rs, sid, users)),
        has_room(admit_all(rs, sid, users), sid),
        forall|k: int|
            0 <= k < users.len() ==> room_has(
                admit_all(rs, sid, users)[room_index(admit_all(rs, sid, users), sid)],
                (#[trigger] users[k]).0,
            ),
{
    let rs1 = spec_ensure(rs, sid, users[0].0, users[0].1);
    let rest = users.subrange(1, users.len() as int);
    lemma_spec_ensure_wf(rs, sid, users[0].0, users[0].1);
    lemma_admit_all_members(rs1, sid, rest);
    let fin = admit_all(rs, sid, users);
    assert(fin == admit_all(rs1, sid, rest));
    let ri = room_index(fin, sid);
    assert(forall|k: int| 1 <= k < users.len() ==> users[k] == #[trigger] rest[k - 1]);
    assert forall|k: int| 0 <= k < users.len() implies room_has(
        fin[ri],
        (#[trigger] users[k]).0,
    ) by {
        if k == 0 {
            assert(room_has(rs1[room_index(rs1, sid)], users[0].0));
            assert(room_has(fin[ri], users[0].0));
        } else {
            assert(users[k] == rest[k - 1]);
            assert(room_has(fin[ri], rest[k - 1].0));
        }
    }
}

/// LAW: a broadcast excluding the sender delivers the payload to every
/// other member whose mailbox has room, whatever the state of anyone
/// else's mailbox: a full mailbox drops the payload for that member alone
/// and never delays or blocks the rest, and nothing is delivered back to
/// the sender.
pub proof fn lemma_broadcast_no_head_of_line(r: RoomV, msg: Seq<char>, sender: int)
    ensures
        broadcast_room(r, msg, Some(sender)).users.len() == r.users.len(),
        forall|k: int|
            0 <= k < r.users.len() && (#[trigger] r.users[k]).0 == sender ==> broadcast_room(
                r,
                msg,
                Some(sender),
            ).users[k] == r.users[k],
        forall|k: int|
            0 <= k < r.users.len() && (#[trigger] r.users[k]).0 != sender && r.users[
                k
            ].1.mailbox.queue.len() < r.users[k].1.mailbox.cap ==> broadcast_room(
                r,
                msg,
                Some(sender),
            ).users[k].1.mailbox.queue == r.users[k].1.mailbox.queue.push(msg),
        forall|k: int|
            0 <= k < r.users.len() && (#[trigger] r.users[k]).0 != sender && r.users[
                k
            ].1.mailbox.queue.len() >= r.users[k].1.mailbox.cap ==> broadcast_room(
                r,
                msg,
                Some(sender),
            ).users[k].1.mailbox == r.users[k].1.mailbox,
{
    assert(forall|k: int|
        0 <= k < r.users.len() ==> broadcast_room(r, msg, Some(sender)).users[k] == deliver(
            #[trigger] r.users[k],
            msg,
            Some(sender),
        ));
}

/// Membership of another resource is untouched when one room is updated
/// in place.
proof fn lemma_membership_after_update(rs: Seq<RoomV>, i: int, r2: RoomV, x: int)
    requires
        rooms_wf(rs),
        rooms_wf(rs.update(i, r2)),
        0 <= i < rs.len(),
        r2.script_id == rs[i].script_id,
        x != r2.script_id,
    ensures
        membership(rs.update(i, r2), x) == membership(rs, x),
{
    let rs2 = rs.update(i, r2);
    if has_room(rs, x) {
        let j = room_index(rs, x);
        assert(0 <= j < rs.len() && rs[j].script_id == x);
        assert(j != i);
        assert(rs2[j] == rs[j]);
        assert(has_room(rs2, x));
        if room_index(rs2, x) != j {
            assert(false);
        }
    } else {
        if has_room(rs2, x) {
            let j = room_index(rs2, x);
            assert(0 <= j < rs2.len() && rs2[j].script_id == x);
            assert(j != i);
            assert(rs[j].script_id == x);
            assert(false);
        }
    }
}

/// Membership of another resource is untouched when a fresh room is added.
proof fn lemma_membership_after_push(rs: Seq<RoomV>, r2: RoomV, x: int)
    requires
        rooms_wf(rs),
        rooms_wf(rs.push(r2)),
        x != r2.script_id,
    ensures
        membership(rs.push(r2), x) == membership(rs, x),
{
    let rs2 = rs.push(r2);
    assert(forall|j: int| 0 <= j < rs.len() ==> (#[trigger] rs2[j]) == rs[j]);
    if has_room(rs, x) {
        let j = room_index(rs, x);
        assert(rs2[j] == rs[j]);
        assert(has_room(rs2, x));
        if room_index(rs2, x) != j {
            assert(false);
        }
    } else {
        if has_room(rs2, x) {
            let j = room_index(rs2, x);
            assert(0 <= j < rs2.len() && rs2[j].script_id == x);
            assert(j != rs.len() as int);
            assert(rs[j].script_id == x);
            assert(false);
        }
    }
}

/// Membership of another resource is untouched when one room is dropped.
proof fn lemma_membership_after_remove(rs: Seq<RoomV>, i: int, x: int)
    requires
        rooms_wf(rs),
        0 <= i < rs.len(),
        x != rs[i].script_id,
    ensures
        membership(rs.remove(i), x) == membership(rs, x),
{
    let rs2 = rs.remove(i);
    assert(forall|j: int|
        0 <= j < rs2.len() ==> (#[trigger] rs2[j]) == (if j < i {
            rs[j]
        } else {
            rs[j + 1]
        }));
    lemma_spec_remove_wf_at(rs, i);
    if has_room(rs, x) {
        let j = room_index(rs, x);
        assert(0 <= j < rs.len() && rs[j].script_id == x);
        assert(j != i);
        if j < i {
            assert(rs2[j] == rs[j]);
            assert(has_room(rs2, x));
        } else {
            assert(rs2[j - 1] == rs[j]);
            assert(has_room(rs2, x));
        }
        let j2 = room_index(rs2, x);
        assert(0 <= j2 < rs2.len() && rs2[j2].script_id == x);
        if j < i {
            if j2 != j {
                assert(false);
            }
        } else {
            if j2 != j - 1 {
                assert(false);
            }
        }
    } else {
        if has_room(rs2, x) {
            let j2 = room_index(rs2, x);
            assert(0 <= j2 < rs2.len() && rs2[j2].script_id == x);
            if j2 < i {
                assert(rs[j2].script_id == x);
            } else {
                assert(rs[j2 + 1].script_id == x);
            }
            assert(false);
        }
    }
}

/// Dropping a room keeps the rest well formed.
proof fn lemma_spec_remove_wf_at(rs: Seq<RoomV>, i: int)
    requires
        rooms_wf(rs),
        0 <= i < rs.len(),
    ensures
        rooms_wf(rs.remove(i)),
{
    let rs2 = rs.remove(i);
    assert(forall|j: int|
        0 <= j < rs2.len() ==> (#[trigger] rs2[j]) == (if j < i {
            rs[j]
        } else {
            rs[j + 1]
        }));
}

/// LAW: an admission adds exactly the requester to the resource's
/// membership, and touches no other resource's room.
pub proof fn lemma_ensure_membership(rs: Seq<RoomV>, sid: int, uid: int, s: SessionV)
    requires
        rooms_wf(rs),
    ensures
        membership(spec_ensure(rs, sid, uid, s), sid) == membership(rs, sid).insert(uid),
        forall|x: int|
            x != sid ==> #[trigger] membership(spec_ensure(rs, sid, uid, s), x) == membership(
                rs,
                x,
            ),
{
    let rs2 = spec_ensure(rs, sid, uid, s);
    lemma_spec_ensure_wf(rs, sid, uid, s);
    let i2 = room_index(rs2, sid);
    if has_room(rs, sid) {
        let i = room_index(rs, sid);
        let mapped = rs[i].users.map_values(|p: (int, SessionV)| p.0);
        if room_has(rs[i], uid) {
            assert(rs2 =~= rs);
            let k = choose|k: int|
                0 <= k < rs[i].users.len() && (#[trigger] rs[i].users[k]).0 == uid;
            assert(mapped[k] == uid);
            assert(room_members(rs[i]).contains(uid));
            assert(membership(rs2, sid) =~= membership(rs, sid).insert(uid));
            assert(forall|x: int|
                x != sid ==> #[trigger] membership(rs2, x) == membership(rs, x));
        } else {
            assert(i2 == i);
            let r2 = RoomV { users: rs[i].users.push((uid, s)), ..rs[i] };
            let mapped2 = rs2[i].users.map_values(|p: (int, SessionV)| p.0);
            assert(mapped2 =~= mapped.push(uid));
            assert forall|e: int| #[trigger] room_members(rs2[i2]).contains(e) implies room_members(
                rs[i],
            ).insert(uid).contains(e) by {
                let a = choose|a: int| 0 <= a < mapped2.len() && mapped2[a] == e;
                if a < mapped.len() {
                    assert(mapped[a] == e);
                }
            }
            assert forall|e: int|
                room_members(rs[i]).insert(uid).contains(e) implies #[trigger] room_members(
                rs2[i2],
            ).contains(e) by {
                if e == uid {
                    assert(mapped2[mapped.len() as int] == uid);
                } else {
                    let a = choose|a: int| 0 <= a < mapped.len() && mapped[a] == e;
                    assert(mapped2[a] == e);
                }
            }
            assert(membership(rs2, sid) =~= membership(rs, sid).insert(uid));
            assert forall|x: int| x != sid implies #[trigger] membership(rs2, x) == membership(
                rs,
                x,
            ) by {
                lemma_membership_after_update(rs, i, r2, x);
            }
        }
    } else {
        assert(i2 == rs.len() as int);
        let r2 = RoomV { script_id: sid, users: seq![(uid, s)] };
        let mapped2 = rs2[i2].users.map_values(|p: (int, SessionV)| p.0);
        assert(mapped2 =~= seq![uid]);
        assert forall|e: int| #[trigger] room_members(rs2[i2]).contains(e) implies e == uid by {
            let a = choose|a: int| 0 <= a < mapped2.len() && mapped2[a] == e;
            assert(a == 0);
        }
        assert(mapped2[0] == uid);
        assert(room_members(rs2[i2]).contains(uid));
        assert(membership(rs2, sid) =~= membership(rs, sid).insert(uid));
        assert forall|x: int| x != sid implies #[trigger] membership(rs2, x) == membership(
            rs,
            x,
        ) by {
            lemma_membership_after_push(rs, r2, x);
        }
    }
}

/// LAW: a release removes exactly that member from the resource's
/// membership (a no-op for a non-member), and touches no other resource's
/// room.
pub proof fn lemma_release_membership(rs: Seq<RoomV>, sid: int, uid: int)
    requires
        rooms_wf(rs),
    ensures
        membership(spec_release(rs, sid, uid), sid) == membership(rs, sid).remove(uid),
        forall|x: int|
            x != sid ==> #[trigger] membership(spec_release(rs, sid, uid), x) == membership(
                rs,
                x,
            ),
{
    let rs2 = spec_release(rs, sid, uid);
    lemma_spec_release_wf(rs, sid, uid);
    if has_room(rs, sid) {
        let i = room_index(rs, sid);
        let mapped = rs[i].users.map_values(|p: (int, SessionV)| p.0);
        if room_has(rs[i], uid) {
            let k = user_index(rs[i].users, uid);
            let users2 = rs[i].users.remove(k);
            let mapped2 = users2.map_values(|p: (int, SessionV)| p.0);
            assert(mapped2 =~= mapped.remove(k));
            if users2.len() == 0 {
                assert(rs2 == rs.remove(i));
                lemma_spec_remove_wf_at(rs, i);
                assert(forall|j: int|
                    0 <= j < rs2.len() ==> (#[trigger] rs2[j]) == (if j < i {
                        rs[j]
                    } else {
                        rs[j + 1]
                    }));
                if has_room(rs2, sid) {
                    let j = room_index(rs2, sid);
                    assert(0 <= j < rs2.len() && rs2[j].script_id == sid);
                    if j < i {
                        assert(rs[j].script_id == sid);
                    } else {
                        assert(rs[j + 1].script_id == sid);
                    }
                    assert(false);
                }
                assert(rs[i].users.len() == 1 && k == 0);
                assert(mapped.len() == 1 && mapped[0] == uid);
                assert forall|e: int| #[trigger] membership(rs, sid).contains(e) implies e
                    == uid by {
                    let a = choose|a: int| 0 <= a < mapped.len() && mapped[a] == e;
                }
                assert(membership(rs2, sid) =~= membership(rs, sid).remove(uid));
                assert forall|x: int| x != sid implies #[trigger] membership(rs2, x) == membership(
                    rs,
                    x,
                ) by {
                    lemma_membership_after_remove(rs, i, x);
                }
            } else {
                let r2 = RoomV { users: users2, ..rs[i] };
                assert(rs2 == rs.update(i, r2));
                if room_index(rs2, sid) != i {
                    assert(rs2[i].script_id == sid);
                    assert(false);
                }
                assert forall|e: int| #[trigger] room_members(rs2[i]).contains(e) implies
                    room_members(rs[i]).remove(uid).contains(e) by {
                    let a = choose|a: int| 0 <= a < mapped2.len() && mapped2[a] == e;
                    if a < k {
                        assert(mapped[a] == e);
                        assert(rs[i].users[a].0 == e && rs[i].users[k].0 == uid);
                    } else {
                        assert(mapped[a + 1] == e);
                        assert(rs[i].users[a + 1].0 == e && rs[i].users[k].0 == uid);
                    }
                }
                assert forall|e: int|
                    room_members(rs[i]).remove(uid).contains(e) implies #[trigger] room_members(
                    rs2[i],
                ).contains(e) by {
                    let a = choose|a: int| 0 <= a < mapped.len() && mapped[a] == e;
                    assert(rs[i].users[a].0 == e && rs[i].users[k].0 == uid);
                    assert(a != k);
                    if a < k {
                        assert(mapped2[a] == e);
                    } else {
                        assert(mapped2[a - 1] == e);
                    }
                }
                assert(rs2[i].script_id == sid);
                assert(has_room(rs2, sid));
                assert(membership(rs2, sid) == room_members(rs2[i]));
                assert(membership(rs, sid) == room_members(rs[i]));
                assert(room_members(rs2[i]) =~= room_members(rs[i]).remove(uid));
                assert(membership(rs2, sid) =~= membership(rs, sid).remove(uid));
                assert forall|x: int| x != sid implies #[trigger] membership(rs2, x) == membership(
                    rs,
                    x,
                ) by {
                    lemma_membership_after_update(rs, i, r2, x);
                }
            }
        } else {
            assert(rs2 =~= rs);
            assert forall|e: int| #[trigger] membership(rs, sid).contains(e) implies e != uid by {
                let a = choose|a: int| 0 <= a < mapped.len() && mapped[a] == e;
                assert(rs[i].users[a].0 == e);
            }
            assert(membership(rs2, sid) =~= membership(rs, sid).remove(uid));
            assert(forall|x: int|
                x != sid ==> #[trigger] membership(rs2, x) == membership(rs, x));
        }
    } else {
        assert(rs2 == rs);
        if has_room(rs, sid) {
            assert(false);
        }
        assert(membership(rs, sid) == Set::<int>::empty());
        assert(membership(rs2, sid) =~= membership(rs, sid).remove(uid));
        assert(forall|x: int| x != sid ==> #[trigger] membership(rs2, x) == membership(rs, x));
    }
}

} // verus!
