//! In-memory state of one room: its live connections, each with the
//! member's display name and the outbound queue of that connection.

use vstd::prelude::*;
use tokio::sync::mpsc::UnboundedSender;
use crate::assoc::{drop_key, has_key, key_index, keys, keys_unique, lemma_drop_key, lemma_key_index, lemma_put, lookup, put};

verus! {

/// tokio's unbounded sender, held opaquely: the outbound queue of a
/// connection.
#[verifier::external_type_specification]
#[verifier::external_body]
#[verifier::reject_recursive_types(T)]
pub struct ExUnboundedSender<T>(UnboundedSender<T>);

/// Relies on `tokio::sync::mpsc::UnboundedSender::send`: hands the payload to
/// the member's queue without blocking; it is refused only when the receiving
/// half is gone, which depends on the peer and is not reported here. The
/// member's ghost log `sent` records every payload handed over, and this is
/// the only place that extends it. (tokio aborts the process if the count of
/// queued messages would reach `usize::MAX`, which memory rules out long
/// before.)
#[verifier::external_body]
fn enqueue(member: &mut Member, payload: String)
    ensures
        final(member).sent@ == old(member).sent@.push(payload),
        final(member).user_id == old(member).user_id,
        final(member).username == old(member).username,
        final(member).tx == old(member).tx,
{
    let _ = member.tx.send(payload);
}

/// Abstract member: (user identifier, display name).
pub type MemberView = (Seq<char>, Seq<char>);

/// One live connection of a room: the member it belongs to and its outbound
/// queue.
pub struct Member {
    pub user_id: String,
    pub username: String,
    pub tx: UnboundedSender<String>,
    /// Every payload handed to `tx` since the member registered, in order.
    pub sent: Ghost<Seq<String>>,
}

/// The members of a room, in order of arrival, one per user identifier.
pub struct RoomState {
    members: Vec<Member>,
}

/// Identifiers of the members that a broadcast excluding `exclude` reaches,
/// in member order.
pub open spec fn recipients(members: Seq<MemberView>, exclude: Option<Seq<char>>) -> Seq<
    Seq<char>,
>
    decreases members.len(),
{
    if members.len() == 0 {
        Seq::empty()
    } else {
        let rest = recipients(members.drop_last(), exclude);
        let id = members.last().0;
        if exclude == Some(id) {
            rest
        } else {
            rest.push(id)
        }
    }
}

pub open spec fn str_opt_view(o: Option<&str>) -> Option<Seq<char>> {
    match o {
        Some(s) => Some(s@),
        None => None,
    }
}

pub open spec fn string_views(v: Seq<String>) -> Seq<Seq<char>> {
    v.map_values(|s: String| s@)
}

/// A broadcast that excludes nobody reaches every member, in member order;
/// so a chat message reaches its own sender as well as every other member.
pub proof fn lemma_broadcast_reaches_all(members: Seq<MemberView>, sender: Seq<char>)
    ensures
        recipients(members, None) == keys(members),
        has_key(members, sender) ==> recipients(members, None).contains(sender),
    decreases members.len(),
{
    if members.len() > 0 {
        lemma_broadcast_reaches_all(members.drop_last(), sender);
        assert(keys(members) =~= keys(members.drop_last()).push(members.last().0));
    } else {
        assert(keys(members) =~= Seq::<Seq<char>>::empty());
    }
    if has_key(members, sender) {
        let i = choose|i: int| 0 <= i < members.len() && #[trigger] members[i].0 == sender;
        assert(keys(members)[i] == sender);
    }
}

proof fn lemma_contains_push(s: Seq<Seq<char>>, x: Seq<char>, id: Seq<char>)
    ensures
        s.push(x).contains(id) <==> (s.contains(id) || id == x),
{
    if s.contains(id) {
        let k = choose|k: int| 0 <= k < s.len() && s[k] == id;
        assert(s.push(x)[k] == id);
    }
    if id == x {
        assert(s.push(x)[s.len() as int] == id);
    }
    if s.push(x).contains(id) && id != x {
        let k = choose|k: int| 0 <= k < s.push(x).len() && s.push(x)[k] == id;
        assert(s[k] == id);
    }
}

/// A broadcast that excludes one member reaches exactly the others.
pub proof fn lemma_broadcast_excludes_only(members: Seq<MemberView>, excluded: Seq<char>, id: Seq<char>)
    ensures
        recipients(members, Some(excluded)).contains(id) <==> (id != excluded && keys(members).contains(id)),
    decreases members.len(),
{
    if members.len() > 0 {
        let init = members.drop_last();
        let x = members.last().0;
        lemma_broadcast_excludes_only(init, excluded, id);
        assert(keys(members) =~= keys(init).push(x));
        lemma_contains_push(keys(init), x, id);
        lemma_contains_push(recipients(init, Some(excluded)), x, id);
    } else {
        assert(keys(members) =~= Seq::<Seq<char>>::empty());
    }
}

impl View for RoomState {
    type V = Seq<MemberView>;

    closed spec fn view(&self) -> Seq<MemberView> {
        self.members@.map_values(|c: Member| (c.user_id@, c.username@))
    }
}

impl RoomState {
    /// Member identifiers are unique.
    pub open spec fn wf(&self) -> bool {
        keys_unique(self@)
    }

    /// What was handed to each member's queue, in member order.
    pub closed spec fn logs(&self) -> Seq<Seq<String>> {
        self.members@.map_values(|c: Member| c.sent@)
    }

    /// What was handed to the queue of member `id` since it registered.
    pub open spec fn log_of(&self, id: Seq<char>) -> Seq<String> {
        self.logs()[key_index(self@, id)]
    }

    pub proof fn lemma_logs_len(&self)
        ensures
            self.logs().len() == self@.len(),
    {
    }

    pub fn new() -> (r: Self)
        ensures
            r.wf(),
            r@ == Seq::<MemberView>::empty(),
    {
        RoomState { members: Vec::new() }
    }

    /// Number of live connections.
    pub fn online_count(&self) -> (n: usize)
        ensures
            n == self@.len(),
    {
        self.members.len()
    }

    fn position(&self, user_id: &str) -> (r: Option<usize>)
        requires
            self.wf(),
        ensures
            match r {
                Some(i) => i < self@.len() && self@[i as int].0 == user_id@ && key_index(self@, user_id@) == i,
                None => !has_key(self@, user_id@),
            },
    {
        let wanted = user_id.to_owned();
        let mut i: usize = 0;
        while i < self.members.len()
            invariant
                self.wf(),
                wanted@ == user_id@,
                i <= self.members.len(),
                forall|j: int| 0 <= j < i ==> #[trigger] self@[j].0 != user_id@,
            decreases self.members.len() - i,
        {
            if self.members[i].user_id == wanted {
                proof {
                    lemma_key_index(self@, user_id@, i as int);
                }
                return Some(i);
            }
            i = i + 1;
        }
        None
    }

    /// Registers a connection with an empty delivery log. A second join
    /// under the same identifier replaces the earlier entry in place. The
    /// other members' logs are unchanged.
    pub fn add_connection(&mut self, user_id: String, username: String, tx: UnboundedSender<String>)
        requires
            old(self).wf(),
        ensures
            final(self).wf(),
            final(self)@ == put(old(self)@, user_id@, username@),
            final(self).log_of(user_id@) == Seq::<String>::empty(),
            forall|id: Seq<char>| id != user_id@ && has_key(old(self)@, id)
                ==> #[trigger] final(self).log_of(id) == old(self).log_of(id),
    {
        let ghost id = user_id@;
        let ghost name = username@;
        proof {
            lemma_put(self@, id, name);
        }
        match self.position(user_id.as_str()) {
            Some(i) => {
                self.members.set(i, Member { user_id, username, tx, sent: Ghost(Seq::empty()) });
                assert(self@ =~= put(old(self)@, id, name));
                proof {
                    lemma_key_index(self@, id, i as int);
                    assert forall|k: Seq<char>| k != id && has_key(old(self)@, k)
                        implies #[trigger] self.log_of(k) == old(self).log_of(k) by {
                        let q = key_index(old(self)@, k);
                        assert(self@[q].0 == k);
                        lemma_key_index(self@, k, q);
                    }
                }
            },
            None => {
                self.members.push(Member { user_id, username, tx, sent: Ghost(Seq::empty()) });
                assert(self@ =~= put(old(self)@, id, name));
                proof {
                    lemma_key_index(self@, id, old(self)@.len() as int);
                    assert forall|k: Seq<char>| k != id && has_key(old(self)@, k)
                        implies #[trigger] self.log_of(k) == old(self).log_of(k) by {
                        let q = key_index(old(self)@, k);
                        assert(self@[q].0 == k);
                        lemma_key_index(self@, k, q);
                    }
                }
            },
        }
    }

    /// Deregisters `user_id`; returns its display name when it was present.
    /// The other members' logs are unchanged.
    pub fn remove_connection(&mut self, user_id: &str) -> (r: Option<String>)
        requires
            old(self).wf(),
        ensures
            final(self).wf(),
            final(self)@ == drop_key(old(self)@, user_id@),
            r matches Some(name) ==> lookup(old(self)@, user_id@) == Some(name@),
            r is None <==> lookup(old(self)@, user_id@) is None,
            forall|id: Seq<char>| id != user_id@ && has_key(old(self)@, id)
                ==> #[trigger] final(self).log_of(id) == old(self).log_of(id),
    {
        proof {
            lemma_drop_key(self@, user_id@);
        }
        match self.position(user_id) {
            Some(i) => {
                let c = self.members.remove(i);
                assert(self@ =~= drop_key(old(self)@, user_id@));
                proof {
                    assert forall|k: Seq<char>| k != user_id@ && has_key(old(self)@, k)
                        implies #[trigger] self.log_of(k) == old(self).log_of(k) by {
                        let q = key_index(old(self)@, k);
                        assert(q != i);
                        let nq = if q < i { q } else { q - 1 };
                        assert(self.members@[nq] == old(self).members@[q]);
                        assert(self@[nq].0 == k);
                        lemma_key_index(self@, k, nq);
                    }
                }
                Some(c.username)
            },
            None => None,
        }
    }

    /// Display name of `user_id`, if it is a member.
    pub fn get_username(&self, user_id: &str) -> (r: Option<String>)
        requires
            self.wf(),
        ensures
            r matches Some(name) ==> lookup(self@, user_id@) == Some(name@),
            r is None <==> lookup(self@, user_id@) is None,
    {
        match self.position(user_id) {
            Some(i) => Some(self.members[i].username.clone()),
            None => None,
        }
    }

    /// Hands `payload` to the queue of every member but `exclude_user`: each
    /// such member's log gains `payload`, the excluded member's log is
    /// unchanged. A queue whose receiver is gone does not affect the others.
    /// Returns the identifiers of the members it was handed to.
    pub fn broadcast(&mut self, payload: &String, exclude_user: Option<&str>) -> (sent: Vec<String>)
        requires
            old(self).wf(),
        ensures
            final(self).wf(),
            final(self)@ == old(self)@,
            string_views(sent@) == recipients(old(self)@, str_opt_view(exclude_user)),
            forall|id: Seq<char>| has_key(old(self)@, id) ==> #[trigger] final(self).log_of(id) == if str_opt_view(exclude_user) == Some(id) {
                old(self).log_of(id)
            } else {
                old(self).log_of(id).push(*payload)
            },
    {
        let excluded: Option<String> = match exclude_user {
            Some(e) => Some(e.to_owned()),
            None => None,
        };
        let ghost ex = str_opt_view(exclude_user);
        let ghost v0 = self@;
        let ghost l0 = self.logs();
        let mut sent: Vec<String> = Vec::new();
        let mut i: usize = 0;
        while i < self.members.len()
            invariant
                i <= self.members.len(),
                self@ == v0,
                self.logs().len() == l0.len(),
                l0.len() == v0.len(),
                ex == str_opt_view(exclude_user),
                excluded matches Some(e) ==> ex == Some(e@),
                excluded is None ==> ex is None,
                string_views(sent@) == recipients(v0.take(i as int), ex),
                forall|j: int| 0 <= j < v0.len() ==> #[trigger] self.logs()[j] == if j < i && ex != Some(v0[j].0) {
                    l0[j].push(*payload)
                } else {
                    l0[j]
                },
            decreases self.members.len() - i,
        {
            let skip = match &excluded {
                Some(e) => self.members[i].user_id == *e,
                None => false,
            };
            assert(v0.take(i + 1).drop_last() =~= v0.take(i as int));
            assert(self@[i as int].0 == self.members@[i as int].user_id@);
            assert(skip <==> ex == Some(v0[i as int].0));
            if !skip {
                let ghost before = self.members@;
                let ghost logs_before = self.logs();
                assert(logs_before[i as int] == l0[i as int]);
                assert(before[i as int].sent@ == l0[i as int]);
                let copy = payload.clone();
                assert(copy == *payload);
                enqueue(&mut self.members[i], copy);
                assert(self.members@ == before.update(i as int, self.members@[i as int]));
                assert(self@ =~= v0);
                assert(self.members@[i as int].sent@ == l0[i as int].push(*payload));
                assert(self.logs() =~= logs_before.update(i as int, l0[i as int].push(*payload)));
                sent.push(self.members[i].user_id.clone());
                assert(string_views(sent@) =~= recipients(v0.take(i + 1), ex));
            }
            i = i + 1;
        }
        assert(v0.take(v0.len() as int) =~= v0);
        proof {
            assert forall|id: Seq<char>| has_key(old(self)@, id) implies #[trigger] self.log_of(id) == if ex == Some(id) {
                old(self).log_of(id)
            } else {
                old(self).log_of(id).push(*payload)
            } by {
                let q = key_index(v0, id);
                assert(v0[q].0 == id);
            }
        }
        sent
    }

    /// Hands `payload` to the queue of `user_id` only: its log gains
    /// `payload` and every other log is unchanged. False when no such member
    /// is registered.
    pub fn send_to_user(&mut self, user_id: &str, payload: String) -> (found: bool)
        requires
            old(self).wf(),
        ensures
            final(self).wf(),
            final(self)@ == old(self)@,
            found == has_key(old(self)@, user_id@),
            forall|id: Seq<char>| has_key(old(self)@, id) ==> #[trigger] final(self).log_of(id) == if id == user_id@ {
                old(self).log_of(id).push(payload)
            } else {
                old(self).log_of(id)
            },
    {
        match self.position(user_id) {
            Some(i) => {
                let ghost before = self.members@;
                let ghost p = payload;
                enqueue(&mut self.members[i], payload);
                assert(self.members@ == before.update(i as int, self.members@[i as int]));
                assert(self@ =~= old(self)@);
                proof {
                    assert forall|id: Seq<char>| has_key(old(self)@, id) implies #[trigger] self.log_of(id) == if id == user_id@ {
                        old(self).log_of(id).push(p)
                    } else {
                        old(self).log_of(id)
                    } by {
                        let q = key_index(old(self)@, id);
                        assert(old(self)@[q].0 == id);
                        if id != user_id@ {
                            assert(q != i);
                        }
                    }
                }
                true
            },
            None => false,
        }
    }
}

} // verus!
