//! The room registry: every room with at least one live connection, keyed by
//! room identifier. A room is created by its first join and removed when its
//! last member leaves.

use vstd::prelude::*;
use tokio::sync::mpsc::UnboundedSender;
use crate::assoc::{drop_key, has_key, key_index, keys_unique, lemma_drop_key, lemma_key_index, lemma_put, lookup, put};
use crate::models::ChatMessage;
use crate::protocol::ServerMessage;
use crate::room::{recipients, str_opt_view, string_views, MemberView, RoomState};

verus! {

/// Abstract registry: (room identifier, members of that room).
pub type RoomsView = Seq<(Seq<char>, Seq<MemberView>)>;

/// Every room has unique member identifiers and at least one member, and
/// room identifiers are unique.
pub open spec fn rooms_ok(rooms: RoomsView) -> bool {
    &&& keys_unique(rooms)
    &&& forall|i: int|
        0 <= i < rooms.len() ==> keys_unique(#[trigger] rooms[i].1) && rooms[i].1.len() > 0
}

/// Members of `room`; none when the room is not registered.
pub open spec fn members_of(rooms: RoomsView, room: Seq<char>) -> Seq<MemberView> {
    match lookup(rooms, room) {
        Some(m) => m,
        None => Seq::empty(),
    }
}

/// Registry after `user` joins `room` under display name `name`.
pub open spec fn join_model(rooms: RoomsView, room: Seq<char>, user: Seq<char>, name: Seq<char>) -> RoomsView {
    put(rooms, room, put(members_of(rooms, room), user, name))
}

/// Registry after `user` leaves `room`: the room is removed once empty.
pub open spec fn leave_model(rooms: RoomsView, room: Seq<char>, user: Seq<char>) -> RoomsView {
    match lookup(rooms, room) {
        None => rooms,
        Some(m) => {
            let rest = drop_key(m, user);
            if rest.len() == 0 {
                drop_key(rooms, room)
            } else {
                put(rooms, room, rest)
            }
        },
    }
}

/// Display name used for a sender that is not (or no longer) registered.
pub open spec fn unknown_name() -> Seq<char> {
    "Unknown"@
}

pub proof fn lemma_members_of_ok(rooms: RoomsView, room: Seq<char>)
    requires
        rooms_ok(rooms),
    ensures
        keys_unique(members_of(rooms, room)),
        has_key(rooms, room) ==> members_of(rooms, room).len() > 0,
{
    if has_key(rooms, room) {
        let i = key_index(rooms, room);
        assert(keys_unique(rooms[i].1));
    }
}

pub proof fn lemma_join_model(rooms: RoomsView, room: Seq<char>, user: Seq<char>, name: Seq<char>)
    requires
        rooms_ok(rooms),
    ensures
        rooms_ok(join_model(rooms, room, user, name)),
        members_of(join_model(rooms, room, user, name), room) == put(members_of(rooms, room), user, name),
        forall|r: Seq<char>| r != room ==> #[trigger] lookup(join_model(rooms, room, user, name), r) == lookup(rooms, r),
{
    let m = put(members_of(rooms, room), user, name);
    lemma_members_of_ok(rooms, room);
    lemma_put(members_of(rooms, room), user, name);
    lemma_put(rooms, room, m);
    let t = join_model(rooms, room, user, name);
    assert forall|i: int| 0 <= i < t.len() implies keys_unique(#[trigger] t[i].1) && t[i].1.len() > 0 by {
        if t[i].0 == room {
            lemma_key_index(t, room, i);
        } else {
            lemma_key_index(t, t[i].0, i);
            let j = key_index(rooms, t[i].0);
            assert(keys_unique(rooms[j].1));
        }
    }
}

pub proof fn lemma_leave_model(rooms: RoomsView, room: Seq<char>, user: Seq<char>)
    requires
        rooms_ok(rooms),
    ensures
        rooms_ok(leave_model(rooms, room, user)),
        members_of(leave_model(rooms, room, user), room) == drop_key(members_of(rooms, room), user),
        forall|r: Seq<char>| r != room ==> #[trigger] lookup(leave_model(rooms, room, user), r) == lookup(rooms, r),
{
    lemma_members_of_ok(rooms, room);
    let m = members_of(rooms, room);
    lemma_drop_key(m, user);
    if has_key(rooms, room) {
        let rest = drop_key(m, user);
        let t = leave_model(rooms, room, user);
        if rest.len() == 0 {
            lemma_drop_key(rooms, room);
            assert(members_of(t, room) =~= rest);
            assert forall|i: int| 0 <= i < t.len() implies keys_unique(#[trigger] t[i].1) && t[i].1.len() > 0 by {
                lemma_key_index(t, t[i].0, i);
                let j = key_index(rooms, t[i].0);
                assert(keys_unique(rooms[j].1));
            }
        } else {
            lemma_put(rooms, room, rest);
            assert forall|i: int| 0 <= i < t.len() implies keys_unique(#[trigger] t[i].1) && t[i].1.len() > 0 by {
                if t[i].0 == room {
                    lemma_key_index(t, room, i);
                } else {
                    lemma_key_index(t, t[i].0, i);
                    let j = key_index(rooms, t[i].0);
                    assert(keys_unique(rooms[j].1));
                }
            }
        }
    }
}

/// Occupancy follows registrations: a join adds one connection unless the
/// identifier was already registered (its entry is replaced), and a leave
/// removes one exactly when the identifier was registered. Other rooms are
/// untouched.
pub proof fn lemma_occupancy(rooms: RoomsView, room: Seq<char>, user: Seq<char>, name: Seq<char>)
    requires
        rooms_ok(rooms),
    ensures
        members_of(join_model(rooms, room, user, name), room).len() == members_of(rooms, room).len()
            + if has_key(members_of(rooms, room), user) {
            0int
        } else {
            1int
        },
        members_of(leave_model(rooms, room, user), room).len() == members_of(rooms, room).len()
            - if has_key(members_of(rooms, room), user) {
            1int
        } else {
            0int
        },
        forall|r: Seq<char>| r != room ==> #[trigger] members_of(join_model(rooms, room, user, name), r) == members_of(rooms, r),
        forall|r: Seq<char>| r != room ==> #[trigger] members_of(leave_model(rooms, room, user), r) == members_of(rooms, r),
{
    lemma_members_of_ok(rooms, room);
    lemma_join_model(rooms, room, user, name);
    lemma_leave_model(rooms, room, user);
    lemma_put(members_of(rooms, room), user, name);
    lemma_drop_key(members_of(rooms, room), user);
    assert forall|r: Seq<char>| r != room implies #[trigger] members_of(join_model(rooms, room, user, name), r) == members_of(rooms, r) by {
        assert(lookup(join_model(rooms, room, user, name), r) == lookup(rooms, r));
    }
    assert forall|r: Seq<char>| r != room implies #[trigger] members_of(leave_model(rooms, room, user), r) == members_of(rooms, r) by {
        assert(lookup(leave_model(rooms, room, user), r) == lookup(rooms, r));
    }
}

/// When the last connection of a room leaves, the room is no longer
/// registered, and the next join starts it afresh with the newcomer alone.
pub proof fn lemma_last_leave_prunes(
    rooms: RoomsView,
    room: Seq<char>,
    user: Seq<char>,
    newcomer: Seq<char>,
    name: Seq<char>,
)
    requires
        rooms_ok(rooms),
        members_of(rooms, room).len() == 1,
        has_key(members_of(rooms, room), user),
    ensures
        !has_key(leave_model(rooms, room, user), room),
        members_of(join_model(leave_model(rooms, room, user), room, newcomer, name), room) == seq![(newcomer, name)],
{
    lemma_members_of_ok(rooms, room);
    lemma_drop_key(members_of(rooms, room), user);
    lemma_drop_key(rooms, room);
    let after = leave_model(rooms, room, user);
    assert(!has_key(after, room));
    lemma_leave_model(rooms, room, user);
    lemma_join_model(after, room, newcomer, name);
    assert(members_of(after, room) =~= Seq::<MemberView>::empty());
    assert(!has_key(members_of(after, room), newcomer));
    assert(put(members_of(after, room), newcomer, name) =~= seq![(newcomer, name)]);
}

struct RoomEntry {
    room_id: String,
    state: RoomState,
}

/// All active rooms of the process.
pub struct Registry {
    rooms: Vec<RoomEntry>,
}

impl View for Registry {
    type V = RoomsView;

    closed spec fn view(&self) -> RoomsView {
        self.rooms@.map_values(|e: RoomEntry| (e.room_id@, e.state@))
    }
}

impl Registry {
    pub closed spec fn wf(&self) -> bool {
        &&& rooms_ok(self@)
        &&& forall|i: int| 0 <= i < self.rooms@.len() ==> (#[trigger] self.rooms@[i]).state.wf()
    }

    /// A well-formed registry has unique room identifiers and, in every
    /// room, unique member identifiers and at least one member.
    pub proof fn lemma_wf(&self)
        requires
            self.wf(),
        ensures
            rooms_ok(self@),
    {
    }

    /// What was handed to the queue of member `user` of room `room`.
    pub closed spec fn log_of(&self, room: Seq<char>, user: Seq<char>) -> Seq<String> {
        self.rooms@[key_index(self@, room)].state.log_of(user)
    }

    pub fn new() -> (r: Self)
        ensures
            r.wf(),
            r@ == RoomsView::empty(),
    {
        let r = Registry { rooms: Vec::new() };
        assert(r@ =~= RoomsView::empty());
        r
    }

    fn position(&self, room_id: &str) -> (r: Option<usize>)
        requires
            self.wf(),
        ensures
            match r {
                Some(i) => i < self@.len() && i < self.rooms@.len() && self@[i as int].0 == room_id@
                    && key_index(self@, room_id@) == i && lookup(self@, room_id@) == Some(self.rooms@[i as int].state@),
                None => !has_key(self@, room_id@),
            },
    {
        let wanted = room_id.to_owned();
        let mut i: usize = 0;
        while i < self.rooms.len()
            invariant
                self.wf(),
                wanted@ == room_id@,
                i <= self.rooms.len(),
                forall|j: int| 0 <= j < i ==> #[trigger] self@[j].0 != room_id@,
            decreases self.rooms.len() - i,
        {
            if self.rooms[i].room_id == wanted {
                proof {
                    lemma_key_index(self@, room_id@, i as int);
                }
                return Some(i);
            }
            i = i + 1;
        }
        None
    }

    /// Whether `room_id` has live connections.
    pub fn contains_room(&self, room_id: &str) -> (r: bool)
        requires
            self.wf(),
        ensures
            r == has_key(self@, room_id@),
    {
        self.position(room_id).is_some()
    }

    /// Number of live connections of `room_id` (0 when it is not registered).
    pub fn online_count(&self, room_id: &str) -> (n: usize)
        requires
            self.wf(),
        ensures
            n == members_of(self@, room_id@).len(),
    {
        match self.position(room_id) {
            Some(i) => self.rooms[i].state.online_count(),
            None => 0,
        }
    }

    /// Registers a connection in `room_id`, creating the room on its first
    /// join. Returns the room's online count right after registration.
    pub fn join(&mut self, room_id: String, user_id: String, username: String, tx: UnboundedSender<String>) -> (online_count: usize)
        requires
            old(self).wf(),
        ensures
            final(self).wf(),
            final(self)@ == join_model(old(self)@, room_id@, user_id@, username@),
            online_count == members_of(final(self)@, room_id@).len(),
            final(self).log_of(room_id@, user_id@) == Seq::<String>::empty(),
            forall|r: Seq<char>, u: Seq<char>|
                has_key(members_of(old(self)@, r), u) && (r != room_id@ || u != user_id@)
                ==> #[trigger] final(self).log_of(r, u) == old(self).log_of(r, u),
    {
        let ghost room = room_id@;
        let ghost user = user_id@;
        let ghost name = username@;
        proof {
            lemma_join_model(self@, room, user, name);
            lemma_members_of_ok(self@, room);
        }
        match self.position(room_id.as_str()) {
            Some(i) => {
                let mut entry = self.rooms.remove(i);
                assert(entry.state.wf());
                entry.state.add_connection(user_id, username, tx);
                let n = entry.state.online_count();
                self.rooms.insert(i, entry);
                proof {
                    lemma_put(old(self)@, room, entry.state@);
                    assert(self@ =~= join_model(old(self)@, room, user, name));
                    assert(self.rooms@ =~= old(self).rooms@.update(i as int, entry));
                    assert(self@[i as int].0 == room);
                    lemma_key_index(self@, room, i as int);
                    assert forall|r: Seq<char>, u: Seq<char>|
                        has_key(members_of(old(self)@, r), u) && (r != room || u != user)
                        implies #[trigger] self.log_of(r, u) == old(self).log_of(r, u) by {
                        assert(has_key(old(self)@, r));
                        let q = key_index(old(self)@, r);
                        assert(old(self)@[q].0 == r);
                        if r != room {
                            assert(q != i);
                            assert(self.rooms@[q] == old(self).rooms@[q]);
                            assert(self@[q].0 == r);
                            lemma_key_index(self@, r, q);
                        } else {
                            assert(has_key(old(self).rooms@[i as int].state@, u));
                        }
                    }
                    assert forall|j: int| 0 <= j < self.rooms@.len() implies (#[trigger] self.rooms@[j]).state.wf() by {
                        if j != i {
                            assert(self.rooms@[j] == old(self).rooms@[j]);
                        }
                    }
                }
                n
            },
            None => {
                let mut state = RoomState::new();
                state.add_connection(user_id, username, tx);
                let n = state.online_count();
                self.rooms.push(RoomEntry { room_id, state });
                proof {
                    assert(self@ =~= join_model(old(self)@, room, user, name));
                    let last = old(self)@.len() as int;
                    assert(self@[last].0 == room);
                    lemma_key_index(self@, room, last);
                    assert forall|r: Seq<char>, u: Seq<char>|
                        has_key(members_of(old(self)@, r), u) && (r != room || u != user)
                        implies #[trigger] self.log_of(r, u) == old(self).log_of(r, u) by {
                        assert(has_key(old(self)@, r));
                        let q = key_index(old(self)@, r);
                        assert(old(self)@[q].0 == r);
                        assert(self.rooms@[q] == old(self).rooms@[q]);
                        assert(self@[q].0 == r);
                        lemma_key_index(self@, r, q);
                    }
                    assert forall|j: int| 0 <= j < self.rooms@.len() implies (#[trigger] self.rooms@[j]).state.wf() by {
                        if j < old(self).rooms@.len() {
                            assert(self.rooms@[j] == old(self).rooms@[j]);
                        }
                    }
                }
                n
            },
        }
    }
    /// Deregisters `user_id` from `room_id` and removes the room once it is
    /// empty. When an entry was removed, returns the presence envelope to
    /// broadcast to the members that remain.
    pub fn leave(&mut self, room_id: &str, user_id: &str, timestamp: i64) -> (notice: Option<ServerMessage>)
        requires
            old(self).wf(),
        ensures
            final(self).wf(),
            final(self)@ == leave_model(old(self)@, room_id@, user_id@),
            match notice {
                Some(ServerMessage::UserLeft { user_id: u, username: n, timestamp: t, online_count: c }) =>
                    u@ == user_id@ && lookup(members_of(old(self)@, room_id@), user_id@) == Some(n@)
                    && t == timestamp && c == members_of(final(self)@, room_id@).len(),
                Some(_) => false,
                None => lookup(members_of(old(self)@, room_id@), user_id@) is None,
            },
            forall|r: Seq<char>, u: Seq<char>|
                has_key(members_of(old(self)@, r), u) && (r != room_id@ || u != user_id@)
                ==> #[trigger] final(self).log_of(r, u) == old(self).log_of(r, u),
    {
        let ghost room = room_id@;
        let ghost user = user_id@;
        proof {
            lemma_leave_model(self@, room, user);
            lemma_members_of_ok(self@, room);
        }
        match self.position(room_id) {
            None => None,
            Some(i) => {
                let mut entry = self.rooms.remove(i);
                assert(entry.state.wf());
                let ghost before = entry.state@;
                proof {
                    lemma_drop_key(before, user);
                }
                let removed = entry.state.remove_connection(user_id);
                let n = entry.state.online_count();
                if n == 0 {
                    proof {
                        lemma_drop_key(old(self)@, room);
                        assert(self@ =~= leave_model(old(self)@, room, user));
                        assert(self.rooms@ =~= old(self).rooms@.remove(i as int));
                        assert forall|r: Seq<char>, u: Seq<char>|
                            has_key(members_of(old(self)@, r), u) && (r != room || u != user)
                            implies #[trigger] self.log_of(r, u) == old(self).log_of(r, u) by {
                            assert(has_key(old(self)@, r));
                            let q = key_index(old(self)@, r);
                            assert(old(self)@[q].0 == r);
                            if r == room {
                                assert(q == i);
                                assert(lookup(before, u) == lookup(drop_key(before, user), u));
                                assert(has_key(drop_key(before, user), u));
                                assert(false);
                            }
                            assert(q != i);
                            let nq = if q < i { q } else { q - 1 };
                            assert(self.rooms@[nq] == old(self).rooms@[q]);
                            assert(self@[nq].0 == r);
                            lemma_key_index(self@, r, nq);
                        }
                        assert forall|j: int| 0 <= j < self.rooms@.len() implies (#[trigger] self.rooms@[j]).state.wf() by {
                            if j < i {
                                assert(self.rooms@[j] == old(self).rooms@[j]);
                            } else {
                                assert(self.rooms@[j] == old(self).rooms@[j + 1]);
                            }
                        }
                    }
                } else {
                    self.rooms.insert(i, entry);
                    proof {
                        lemma_put(old(self)@, room, entry.state@);
                        assert(self@ =~= leave_model(old(self)@, room, user));
                        assert(self.rooms@ =~= old(self).rooms@.update(i as int, entry));
                        assert(self@[i as int].0 == room);
                        lemma_key_index(self@, room, i as int);
                        assert forall|r: Seq<char>, u: Seq<char>|
                            has_key(members_of(old(self)@, r), u) && (r != room || u != user)
                            implies #[trigger] self.log_of(r, u) == old(self).log_of(r, u) by {
                            assert(has_key(old(self)@, r));
                            let q = key_index(old(self)@, r);
                            assert(old(self)@[q].0 == r);
                            if r != room {
                                assert(q != i);
                                assert(self.rooms@[q] == old(self).rooms@[q]);
                                assert(self@[q].0 == r);
                                lemma_key_index(self@, r, q);
                            } else {
                                assert(has_key(before, u));
                            }
                        }
                        assert forall|j: int| 0 <= j < self.rooms@.len() implies (#[trigger] self.rooms@[j]).state.wf() by {
                            if j != i {
                                assert(self.rooms@[j] == old(self).rooms@[j]);
                            }
                        }
                    }
                }
                match removed {
                    Some(username) => Some(
                        ServerMessage::UserLeft { user_id: user_id.to_owned(), username, timestamp, online_count: n },
                    ),
                    None => None,
                }
            },
        }
    }

    /// Presence envelope announcing `user_id` to the room, carrying the
    /// room's online count at this instant; none when the room is gone.
    pub fn joined_notice(&self, room_id: &str, user_id: String, username: String, timestamp: i64) -> (notice: Option<ServerMessage>)
        requires
            self.wf(),
        ensures
            match notice {
                Some(ServerMessage::UserJoined { user_id: u, username: n, timestamp: t, online_count: c }) =>
                    has_key(self@, room_id@) && u == user_id && n == username && t == timestamp
                    && c == members_of(self@, room_id@).len(),
                Some(_) => false,
                None => !has_key(self@, room_id@),
            },
    {
        match self.position(room_id) {
            Some(i) => Some(
                ServerMessage::UserJoined {
                    user_id,
                    username,
                    timestamp,
                    online_count: self.rooms[i].state.online_count(),
                },
            ),
            None => None,
        }
    }

    /// Hands `payload` to every member of `room_id` but `exclude_user`: the
    /// log of each such member gains `payload`, and every other log, in this
    /// room or another, is unchanged. Returns the identifiers it was handed
    /// to (none when the room is not registered).
    pub fn broadcast(&mut self, room_id: &str, payload: &String, exclude_user: Option<&str>) -> (sent: Vec<String>)
        requires
            old(self).wf(),
        ensures
            final(self).wf(),
            final(self)@ == old(self)@,
            string_views(sent@) == recipients(members_of(old(self)@, room_id@), str_opt_view(exclude_user)),
            forall|r: Seq<char>, u: Seq<char>| has_key(members_of(old(self)@, r), u)
                ==> #[trigger] final(self).log_of(r, u) == if r == room_id@ && str_opt_view(exclude_user) != Some(u) {
                    old(self).log_of(r, u).push(*payload)
                } else {
                    old(self).log_of(r, u)
                },
    {
        match self.position(room_id) {
            Some(i) => {
                assert(self.rooms@[i as int].state.wf());
                let sent = self.rooms[i].state.broadcast(payload, exclude_user);
                proof {
                    let e = self.rooms@[i as int];
                    assert(self.rooms@ =~= old(self).rooms@.update(i as int, e));
                    assert(self@ =~= old(self)@);
                    assert forall|j: int| 0 <= j < self.rooms@.len() implies (#[trigger] self.rooms@[j]).state.wf() by {
                        if j != i {
                            assert(self.rooms@[j] == old(self).rooms@[j]);
                        }
                    }
                    assert forall|r: Seq<char>, u: Seq<char>| has_key(members_of(old(self)@, r), u)
                        implies #[trigger] self.log_of(r, u) == if r == room_id@ && str_opt_view(exclude_user) != Some(u) {
                            old(self).log_of(r, u).push(*payload)
                        } else {
                            old(self).log_of(r, u)
                        } by {
                        assert(has_key(old(self)@, r));
                        let q = key_index(old(self)@, r);
                        assert(old(self)@[q].0 == r);
                        if r != room_id@ {
                            assert(q != i);
                            assert(self.rooms@[q] == old(self).rooms@[q]);
                        } else {
                            assert(has_key(old(self).rooms@[i as int].state@, u));
                        }
                    }
                }
                sent
            },
            None => {
                let sent: Vec<String> = Vec::new();
                assert(string_views(sent@) =~= Seq::empty());
                sent
            },
        }
    }

    /// Hands `payload` to `user_id` of `room_id` only: that member's log
    /// gains `payload` and every other log is unchanged. False when there is
    /// no such member.
    pub fn send_to_user(&mut self, room_id: &str, user_id: &str, payload: String) -> (found: bool)
        requires
            old(self).wf(),
        ensures
            final(self).wf(),
            final(self)@ == old(self)@,
            found == has_key(members_of(old(self)@, room_id@), user_id@),
            forall|r: Seq<char>, u: Seq<char>| has_key(members_of(old(self)@, r), u)
                ==> #[trigger] final(self).log_of(r, u) == if r == room_id@ && u == user_id@ {
                    old(self).log_of(r, u).push(payload)
                } else {
                    old(self).log_of(r, u)
                },
    {
        let ghost p = payload;
        match self.position(room_id) {
            Some(i) => {
                assert(self.rooms@[i as int].state.wf());
                let found = self.rooms[i].state.send_to_user(user_id, payload);
                proof {
                    let e = self.rooms@[i as int];
                    assert(self.rooms@ =~= old(self).rooms@.update(i as int, e));
                    assert(self@ =~= old(self)@);
                    assert forall|j: int| 0 <= j < self.rooms@.len() implies (#[trigger] self.rooms@[j]).state.wf() by {
                        if j != i {
                            assert(self.rooms@[j] == old(self).rooms@[j]);
                        }
                    }
                    assert forall|r: Seq<char>, u: Seq<char>| has_key(members_of(old(self)@, r), u)
                        implies #[trigger] self.log_of(r, u) == if r == room_id@ && u == user_id@ {
                            old(self).log_of(r, u).push(p)
                        } else {
                            old(self).log_of(r, u)
                        } by {
                        assert(has_key(old(self)@, r));
                        let q = key_index(old(self)@, r);
                        assert(old(self)@[q].0 == r);
                        if r != room_id@ {
                            assert(q != i);
                            assert(self.rooms@[q] == old(self).rooms@[q]);
                        } else {
                            assert(has_key(old(self).rooms@[i as int].state@, u));
                        }
                    }
                }
                found
            },
            None => false,
        }
    }

    /// A new chat record from `user_id` in `room_id`, labelled with the
    /// sender's registered display name ("Unknown" when it has none); none
    /// when the room is not registered.
    pub fn compose_chat(&self, room_id: &str, user_id: &str, content: String) -> (m: Option<ChatMessage>)
        requires
            self.wf(),
        ensures
            m is None <==> !has_key(self@, room_id@),
            m matches Some(msg) ==> {
                &&& msg.room_id@ == room_id@
                &&& msg.user_id@ == user_id@
                &&& msg.content == content
                &&& msg.username@ == match lookup(members_of(self@, room_id@), user_id@) {
                    Some(n) => n,
                    None => unknown_name(),
                }
            },
    {
        match self.position(room_id) {
            Some(i) => {
                let username = match self.rooms[i].state.get_username(user_id) {
                    Some(n) => n,
                    None => "Unknown".to_owned(),
                };
                Some(ChatMessage::new(room_id.to_owned(), user_id.to_owned(), username, content))
            },
            None => None,
        }
    }
}

} // verus!
