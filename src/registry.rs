//! The connection registry, the subscription index, and fanout over them.

use vstd::prelude::*;
use std::collections::{HashMap, HashSet};
use tokio::sync::mpsc::UnboundedSender;
use crate::outbox::enqueue;
use crate::model::{
    any_subscribed, lemma_index_of, lemma_registry_wf_remove, lemma_registry_wf_update,
    lemma_remove_keeps, lemma_remove_keeps_live, lemma_with_subs_keeps_live, subscribed, unsubscribed, disconnected, lemma_update_covers, lemma_update_keeps, RegistryView,
    SessionView,
};
use crate::protocol::{ChannelId, SessionId, UserId};

verus! {

broadcast use vstd::std_specs::hash::group_hash_axioms;

/// The result of offering a frame to one session: the session (its user
/// and identifier), and whether its queue took the frame.
pub type Outcome = ((UserId, SessionId), bool);

/// The sessions that `o` records, in order.
pub open spec fn reached(o: Seq<Outcome>) -> Seq<(UserId, SessionId)> {
    o.map_values(|p: Outcome| p.0)
}

/// The outcomes in `o` whose queue took the frame, in order.
pub open spec fn accepted(o: Seq<Outcome>) -> Seq<Outcome> {
    o.filter(|p: Outcome| p.1)
}

/// A live session as the registry holds it: its identifier, the channels it
/// is subscribed to, and the queue that its writer drains onto the wire.
pub struct ConnectionHandle {
    pub id: SessionId,
    pub subscriptions: HashSet<ChannelId>,
    pub tx: UnboundedSender<String>,
}

impl View for ConnectionHandle {
    type V = SessionView;

    open spec fn view(&self) -> SessionView {
        SessionView { id: self.id, subs: self.subscriptions@ }
    }
}

/// The connection registry (user to live sessions) and the subscription
/// index (channel to interested users), kept consistent with each other.
pub struct ConnectionMap {
    users: HashMap<UserId, Vec<ConnectionHandle>>,
    channels: HashMap<ChannelId, HashSet<UserId>>,
    next_session: SessionId,
}

pub open spec fn handles_view(v: Seq<ConnectionHandle>) -> Seq<SessionView> {
    v.map_values(|h: ConnectionHandle| h@)
}

impl View for ConnectionMap {
    type V = RegistryView;

    closed spec fn view(&self) -> RegistryView {
        RegistryView {
            sessions: self.users@.map_values(|v: Vec<ConnectionHandle>| handles_view(v@)),
            channels: self.channels@.map_values(|s: HashSet<UserId>| s@),
            next_session: self.next_session,
        }
    }
}

impl ConnectionMap {
    /// An empty registry and index.
    pub fn new() -> (r: Self)
        ensures
            r@.wf(),
            r@.sessions == Map::<UserId, Seq<SessionView>>::empty(),
            r@.channels == Map::<ChannelId, Set<UserId>>::empty(),
            r@.next_session == 0,
    {
        let r = ConnectionMap { users: HashMap::new(), channels: HashMap::new(), next_session: 0 };
        assert(r@.sessions =~= Map::<UserId, Seq<SessionView>>::empty());
        assert(r@.channels =~= Map::<ChannelId, Set<UserId>>::empty());
        r
    }

    /// Whether another session identifier can still be issued.
    pub fn can_register(&self) -> (r: bool)
        ensures
            r == (self@.next_session < u64::MAX),
    {
        self.next_session < u64::MAX
    }

    /// Appends a new session of `user_id`, with no subscriptions, that
    /// delivers through `tx`; returns its identifier.
    pub fn register(&mut self, user_id: UserId, tx: UnboundedSender<String>) -> (sid: SessionId)
        requires
            old(self)@.wf(),
            old(self)@.next_session < u64::MAX,
        ensures
            final(self)@.wf(),
            sid == old(self)@.next_session,
            final(self)@.is_live(user_id, sid),
            forall|v: UserId, t: SessionId| old(self)@.is_live(v, t) ==> #[trigger] final(self)@.is_live(v, t),
            final(self)@.next_session == old(self)@.next_session + 1,
            final(self)@.sessions == old(self)@.sessions.insert(
                user_id,
                old(self)@.sessions_of(user_id).push(SessionView { id: sid, subs: Set::empty() }),
            ),
            final(self)@.channels == old(self)@.channels,
    {
        let ghost pre = self@;
        let sid = self.next_session;
        let handle = ConnectionHandle { id: sid, subscriptions: HashSet::new(), tx };
        let mut conns = match self.users.remove(&user_id) {
            Some(v) => v,
            None => Vec::new(),
        };
        proof {
            assert(handles_view(conns@) =~= pre.sessions_of(user_id));
        }
        conns.push(handle);
        self.users.insert(user_id, conns);
        self.next_session = sid + 1;
        proof {
            let post = self@;
            let s = pre.sessions_of(user_id).push(SessionView { id: sid, subs: Set::empty() });
            assert(handles_view(conns@) =~= s);
            assert(post.sessions_of(user_id)[s.len() - 1].id == sid);
            assert forall|v: UserId, t: SessionId| pre.is_live(v, t) implies #[trigger] post.is_live(v, t) by {
                let k = choose|k: int| 0 <= k < pre.sessions_of(v).len() && #[trigger] pre.sessions_of(v)[k].id == t;
                if v == user_id {
                    assert(post.sessions_of(v)[k] == pre.sessions_of(v)[k]);
                } else {
                    assert(post.sessions_of(v) == pre.sessions_of(v));
                }
            }
            assert(post.sessions =~= pre.sessions.insert(user_id, s));
            assert(post.channels =~= pre.channels);
            assert forall|u: UserId, c: ChannelId| #[trigger]
                post.has_session_on(u, c) == pre.has_session_on(u, c) by {
                if u == user_id {
                    if post.has_session_on(u, c) {
                        let i = choose|i: int|
                            0 <= i < post.sessions_of(u).len()
                                && #[trigger] post.sessions_of(u)[i].subs.contains(c);
                        assert(i < pre.sessions_of(u).len());
                        assert(pre.sessions_of(u)[i].subs.contains(c));
                    }
                    if pre.has_session_on(u, c) {
                        let i = choose|i: int|
                            0 <= i < pre.sessions_of(u).len()
                                && #[trigger] pre.sessions_of(u)[i].subs.contains(c);
                        assert(post.sessions_of(u)[i].subs.contains(c));
                    }
                } else {
                    assert(post.sessions_of(u) == pre.sessions_of(u));
                }
            }
            assert forall|c: ChannelId, u: UserId|
                #[trigger] post.subscribers(c).contains(u) <==> post.has_session_on(u, c) by {
                assert(post.subscribers(c) == pre.subscribers(c));
                assert(post.has_session_on(u, c) == pre.has_session_on(u, c));
            }
            assert forall|u: UserId, i: int| 0 <= i < post.sessions_of(u).len()
                implies #[trigger] post.sessions_of(u)[i].id < post.next_session by {
                if u != user_id {
                    assert(post.sessions_of(u) == pre.sessions_of(u));
                } else if i < pre.sessions_of(u).len() {
                    assert(post.sessions_of(u)[i] == pre.sessions_of(u)[i]);
                }
            }
            assert forall|u: UserId, i: int, j: int|
                0 <= i < post.sessions_of(u).len() && 0 <= j < post.sessions_of(u).len() && i != j
                implies #[trigger] post.sessions_of(u)[i].id != #[trigger] post.sessions_of(u)[j].id by {
                if u != user_id {
                    assert(post.sessions_of(u) == pre.sessions_of(u));
                } else {
                    let n = pre.sessions_of(u).len();
                    if i < n {
                        assert(post.sessions_of(u)[i] == pre.sessions_of(u)[i]);
                    }
                    if j < n {
                        assert(post.sessions_of(u)[j] == pre.sessions_of(u)[j]);
                    }
                }
            }
        }
        sid
    }

    /// Adds `u` to the subscribers of `c`, creating the entry if needed.
    fn add_subscriber(&mut self, c: ChannelId, u: UserId)
        ensures
            final(self)@.sessions == old(self)@.sessions,
            final(self)@.next_session == old(self)@.next_session,
            final(self)@.channels == old(self)@.channels.insert(c, old(self)@.subscribers(c).insert(u)),
    {
        let ghost pre = self@;
        let mut subs = match self.channels.remove(&c) {
            Some(s) => s,
            None => HashSet::new(),
        };
        subs.insert(u);
        self.channels.insert(c, subs);
        proof {
            assert(self@.sessions =~= pre.sessions);
            assert(self@.channels =~= pre.channels.insert(c, pre.subscribers(c).insert(u)));
        }
    }

    /// Takes `u` out of the subscribers of `c`, dropping the entry once it is empty.
    fn remove_subscriber(&mut self, c: ChannelId, u: UserId)
        ensures
            final(self)@.sessions == old(self)@.sessions,
            final(self)@.next_session == old(self)@.next_session,
            final(self)@.channels == if old(self)@.subscribers(c).remove(u).is_empty() {
                old(self)@.channels.remove(c)
            } else {
                old(self)@.channels.insert(c, old(self)@.subscribers(c).remove(u))
            },
    {
        let ghost pre = self@;
        match self.channels.remove(&c) {
            Some(mut subs) => {
                subs.remove(&u);
                if !subs.is_empty() {
                    self.channels.insert(c, subs);
                    assert(self@.channels =~= pre.channels.insert(c, pre.subscribers(c).remove(u)));
                } else {
                    assert(self@.channels =~= pre.channels.remove(c));
                }
            },
            None => {
                assert(pre.subscribers(c).remove(u) =~= Set::<UserId>::empty());
                assert(self@.channels =~= pre.channels.remove(c));
            },
        }
        assert(self@.sessions =~= pre.sessions);
    }

    /// Marks session `sid` of `user_id` as subscribed to `channel_id` and
    /// records the user under the channel. Returns whether the session is live;
    /// when it is not, nothing changes. Subscribing twice is the same as once.
    pub fn subscribe(&mut self, user_id: UserId, sid: SessionId, channel_id: ChannelId) -> (live: bool)
        requires
            old(self)@.wf(),
        ensures
            final(self)@.wf(),
            live == old(self)@.is_live(user_id, sid),
            !live ==> final(self)@ == old(self)@,
            subscribed(old(self)@, final(self)@, user_id, sid, channel_id),
            live ==> final(self)@.subscribers(channel_id) == old(self)@.subscribers(channel_id).insert(user_id),
            forall|c: ChannelId| c != channel_id ==> #[trigger] final(self)@.subscribers(c) == old(self)@.subscribers(c),
            final(self)@.next_session == old(self)@.next_session,
    {
        let ghost pre = self@;
        let mut conns = match self.users.remove(&user_id) {
            Some(v) => v,
            None => {
                proof {
                    assert(self@.sessions =~= pre.sessions);
                    assert(self@.channels =~= pre.channels);
                }
                return false;
            },
        };
        proof {
            assert(handles_view(conns@) == pre.sessions[user_id]);
        }
        let i = match find_session(&conns, sid) {
            Some(i) => i,
            None => {
                self.users.insert(user_id, conns);
                proof {
                    assert(self@.sessions =~= pre.sessions);
                    assert(self@.channels =~= pre.channels);
                    assert(self@ == pre);
                }
                return false;
            },
        };
        let mut h = conns.remove(i);
        h.subscriptions.insert(channel_id);
        conns.insert(i, h);
        self.users.insert(user_id, conns);
        self.add_subscriber(channel_id, user_id);
        proof {
            let post = self@;
            let ss = pre.sessions[user_id];
            let s = SessionView { id: sid, subs: ss[i as int].subs.insert(channel_id) };
            lemma_index_of(pre, user_id, sid, i as int);
            assert(handles_view(conns@) =~= ss.update(i as int, s));
            assert(post.sessions =~= pre.sessions.insert(user_id, ss.update(i as int, s)));
            lemma_registry_wf_update(pre, post, user_id, i as int, s);
            lemma_with_subs_keeps_live(pre, post, user_id, sid, s.subs);
            assert(post.sessions_of(user_id)[i as int].id == sid);
            lemma_index_of(post, user_id, sid, i as int);
            assert forall|c: ChannelId| #[trigger] post.channels.contains_key(c) implies !post.channels[c].is_empty() by {
                if c == channel_id {
                    assert(post.channels[c].contains(user_id));
                    assert(!Set::<UserId>::empty().contains(user_id));
                } else {
                    assert(post.channels[c] == pre.channels[c]);
                }
            }
            assert forall|c: ChannelId, u: UserId|
                #[trigger] post.subscribers(c).contains(u) <==> post.has_session_on(u, c) by {
                if c == channel_id {
                    assert(post.subscribers(c) == pre.subscribers(c).insert(user_id));
                } else {
                    assert(post.subscribers(c) == pre.subscribers(c));
                }
                assert(pre.subscribers(c).contains(u) <==> pre.has_session_on(u, c));
                if u == user_id {
                    assert(post.sessions_of(u) == ss.update(i as int, s));
                    if c == channel_id {
                        lemma_update_covers(ss, i as int, s, c);
                    } else {
                        lemma_update_keeps(ss, i as int, s, c);
                    }
                } else {
                    assert(post.sessions_of(u) == pre.sessions_of(u));
                }
            }
        }
        true
    }

    /// Takes `channel_id` out of session `sid` of `user_id`; then, only if no
    /// live session of the user is still subscribed to it, takes the user out
    /// of the channel's subscribers, and drops the channel entry once it is
    /// empty. Returns whether the session is live; when it is not, nothing
    /// changes.
    pub fn unsubscribe(&mut self, user_id: UserId, sid: SessionId, channel_id: ChannelId) -> (live: bool)
        requires
            old(self)@.wf(),
        ensures
            final(self)@.wf(),
            live == old(self)@.is_live(user_id, sid),
            !live ==> final(self)@ == old(self)@,
            unsubscribed(old(self)@, final(self)@, user_id, sid, channel_id),
            live ==> final(self)@.subscribers(channel_id) == if final(self)@.has_session_on(user_id, channel_id) {
                old(self)@.subscribers(channel_id)
            } else {
                old(self)@.subscribers(channel_id).remove(user_id)
            },
            forall|c: ChannelId| c != channel_id ==> #[trigger] final(self)@.subscribers(c) == old(self)@.subscribers(c),
            final(self)@.next_session == old(self)@.next_session,
    {
        let ghost pre = self@;
        let mut conns = match self.users.remove(&user_id) {
            Some(v) => v,
            None => {
                proof {
                    assert(self@.sessions =~= pre.sessions);
                    assert(self@.channels =~= pre.channels);
                }
                return false;
            },
        };
        proof {
            assert(handles_view(conns@) == pre.sessions[user_id]);
        }
        let i = match find_session(&conns, sid) {
            Some(i) => i,
            None => {
                self.users.insert(user_id, conns);
                proof {
                    assert(self@.sessions =~= pre.sessions);
                    assert(self@.channels =~= pre.channels);
                    assert(self@ == pre);
                }
                return false;
            },
        };
        let mut h = conns.remove(i);
        h.subscriptions.remove(&channel_id);
        conns.insert(i, h);
        let still_subscribed = any_session_on(&conns, channel_id);
        self.users.insert(user_id, conns);
        let ghost mid = self@;
        proof {
            let ss = pre.sessions[user_id];
            let s = SessionView { id: sid, subs: ss[i as int].subs.remove(channel_id) };
            lemma_index_of(pre, user_id, sid, i as int);
            assert(handles_view(conns@) =~= ss.update(i as int, s));
            assert(mid.sessions =~= pre.sessions.insert(user_id, ss.update(i as int, s)));
            assert(mid.channels =~= pre.channels);
            lemma_registry_wf_update(pre, mid, user_id, i as int, s);
        }
        if !still_subscribed {
            self.remove_subscriber(channel_id, user_id);
        }
        proof {
            let post = self@;
            let ss = pre.sessions[user_id];
            let s = SessionView { id: sid, subs: ss[i as int].subs.remove(channel_id) };
            assert(post.sessions_of(user_id) == ss.update(i as int, s));
            assert(post.has_session_on(user_id, channel_id) == still_subscribed);
            lemma_registry_wf_update(pre, post, user_id, i as int, s);
            lemma_with_subs_keeps_live(pre, post, user_id, sid, s.subs);
            assert(post.sessions_of(user_id)[i as int].id == sid);
            lemma_index_of(post, user_id, sid, i as int);
            if still_subscribed {
                assert(post.channels == pre.channels);
            } else {
                assert(post.subscribers(channel_id) =~= pre.subscribers(channel_id).remove(user_id));
            }
            assert forall|c: ChannelId| #[trigger] post.channels.contains_key(c) implies !post.channels[c].is_empty() by {
                if c != channel_id {
                    assert(post.channels[c] == pre.channels[c]);
                }
            }
            assert forall|c: ChannelId| c != channel_id implies #[trigger] post.subscribers(c) == pre.subscribers(c) by {
                assert(post.channels.contains_key(c) == pre.channels.contains_key(c));
            }
            assert forall|c: ChannelId, u: UserId|
                #[trigger] post.subscribers(c).contains(u) <==> post.has_session_on(u, c) by {
                assert(pre.subscribers(c).contains(u) <==> pre.has_session_on(u, c));
                if u == user_id {
                    if c != channel_id {
                        lemma_update_keeps(ss, i as int, s, c);
                    }
                } else {
                    assert(post.sessions_of(u) == pre.sessions_of(u));
                }
            }
        }
        true
    }

    /// Tears down session `sid` of `user_id`: removes it from the registry
    /// (and the user with its last session), then, for every channel the
    /// session held, takes the user out of the channel's subscribers unless
    /// another of its live sessions is still subscribed. Returns whether the
    /// session was live; tearing down a session that is gone changes nothing.
    pub fn disconnect(&mut self, user_id: UserId, sid: SessionId) -> (live: bool)
        requires
            old(self)@.wf(),
        ensures
            final(self)@.wf(),
            live == old(self)@.is_live(user_id, sid),
            !live ==> final(self)@ == old(self)@,
            disconnected(old(self)@, final(self)@, user_id, sid),
            live ==> forall|c: ChannelId|
                !old(self)@.sessions[user_id][old(self)@.index_of(user_id, sid)].subs.contains(c)
                    ==> #[trigger] final(self)@.subscribers(c) == old(self)@.subscribers(c),
            final(self)@.next_session == old(self)@.next_session,
    {
        let ghost pre = self@;
        let mut conns = match self.users.remove(&user_id) {
            Some(v) => v,
            None => {
                proof {
                    assert(self@.sessions =~= pre.sessions);
                    assert(self@.channels =~= pre.channels);
                }
                return false;
            },
        };
        proof {
            assert(handles_view(conns@) == pre.sessions[user_id]);
        }
        let i = match find_session(&conns, sid) {
            Some(i) => i,
            None => {
                self.users.insert(user_id, conns);
                proof {
                    assert(self@.sessions =~= pre.sessions);
                    assert(self@.channels =~= pre.channels);
                    assert(self@ == pre);
                }
                return false;
            },
        };
        proof {
            lemma_index_of(pre, user_id, sid, i as int);
        }
        let h = conns.remove(i);
        let ghost ss = pre.sessions[user_id];
        let ghost rest = ss.remove(i as int);
        proof {
            assert(handles_view(conns@) =~= rest);
        }
        let held = snapshot(&h.subscriptions);
        proof {
            assert(self@.sessions =~= pre.sessions.remove(user_id));
            assert(self@.channels =~= pre.channels);
        }
        let mut k: usize = 0;
        while k < held.len()
            invariant
                self@.sessions == pre.sessions.remove(user_id),
                self.next_session == pre.next_session,
                handles_view(conns@) == rest,
                0 <= i < ss.len(),
                held@.to_set() == ss[i as int].subs,
                held@.no_duplicates(),
                k <= held@.len(),
                forall|c: ChannelId| #[trigger] self@.channels.contains_key(c) ==> !self@.channels[c].is_empty(),
                forall|c: ChannelId|
                    #[trigger] self@.subscribers(c) == if held@.take(k as int).contains(c) && !any_subscribed(rest, c) {
                        pre.subscribers(c).remove(user_id)
                    } else {
                        pre.subscribers(c)
                    },
            decreases held@.len() - k,
        {
            let c = held[k];
            let ghost before = self@;
            proof {
                assert(held@.take(k as int + 1) =~= held@.take(k as int).push(c));
                assert(!held@.take(k as int).contains(c)) by {
                    if held@.take(k as int).contains(c) {
                        let j = choose|j: int| 0 <= j < k && held@.take(k as int)[j] == c;
                        assert(held@[j] == held@[k as int]);
                    }
                }
            }
            if !any_session_on(&conns, c) {
                self.remove_subscriber(c, user_id);
                proof {
                    assert(self@.subscribers(c) =~= pre.subscribers(c).remove(user_id));
                    assert forall|d: ChannelId| #[trigger] self@.channels.contains_key(d) implies !self@.channels[d].is_empty() by {
                        if d != c {
                            assert(self@.channels[d] == before.channels[d]);
                        }
                    }
                    assert forall|d: ChannelId| d != c implies #[trigger] self@.subscribers(d) == before.subscribers(d) by {
                        assert(self@.channels.contains_key(d) == before.channels.contains_key(d));
                    }
                }
            }
            proof {
                assert forall|d: ChannelId|
                    #[trigger] self@.subscribers(d) == if held@.take(k as int + 1).contains(d) && !any_subscribed(rest, d) {
                        pre.subscribers(d).remove(user_id)
                    } else {
                        pre.subscribers(d)
                    } by {
                    if d != c {
                        assert(held@.take(k as int + 1).contains(d) == held@.take(k as int).contains(d));
                        assert(self@.subscribers(d) == before.subscribers(d));
                    } else {
                        assert(held@.take(k as int + 1)[k as int] == c);
                        assert(held@.take(k as int + 1).contains(d));
                    }
                }
            }
            k = k + 1;
        }
        let ghost before_insert = self@;
        if conns.len() > 0 {
            self.users.insert(user_id, conns);
            proof {
                assert(self@.sessions =~= before_insert.sessions.insert(user_id, handles_view(conns@)));
                assert(self@.channels =~= before_insert.channels);
            }
        }
        proof {
            let post = self@;
            assert(rest.len() == conns@.len());
            assert(held@.take(held@.len() as int) =~= held@);
            assert(post.sessions =~= (if rest.len() == 0 {
                pre.sessions.remove(user_id)
            } else {
                pre.sessions.insert(user_id, rest)
            }));
            lemma_registry_wf_remove(pre, post, user_id, i as int);
            lemma_remove_keeps_live(pre, post, user_id, sid);
            assert forall|c: ChannelId| #[trigger] held@.contains(c) <==> ss[i as int].subs.contains(c) by {
                assert(held@.to_set().contains(c) <==> held@.contains(c));
            }
            assert forall|c: ChannelId, u: UserId|
                #[trigger] post.subscribers(c).contains(u) <==> post.has_session_on(u, c) by {
                assert(pre.subscribers(c).contains(u) <==> pre.has_session_on(u, c));
                assert(post.subscribers(c) == before_insert.subscribers(c));
                assert(post.subscribers(c) == if held@.contains(c) && !any_subscribed(rest, c) {
                    pre.subscribers(c).remove(user_id)
                } else {
                    pre.subscribers(c)
                });
                if u == user_id {
                    assert(post.sessions_of(u) == rest);
                    if !ss[i as int].subs.contains(c) {
                        lemma_remove_keeps(ss, i as int, c);
                    } else {
                        assert(pre.sessions_of(u)[i as int].subs.contains(c));
                        assert(pre.has_session_on(u, c));
                    }
                } else {
                    assert(post.sessions_of(u) == pre.sessions_of(u));
                }
            }
            assert forall|c: ChannelId|
                !ss[i as int].subs.contains(c) implies #[trigger] post.subscribers(c) == pre.subscribers(c) by {
                assert(!held@.contains(c));
                assert(post.subscribers(c) == before_insert.subscribers(c));
                assert(post.subscribers(c) == if held@.contains(c) && !any_subscribed(rest, c) {
                    pre.subscribers(c).remove(user_id)
                } else {
                    pre.subscribers(c)
                });
            }
            assert(!post.is_live(user_id, sid)) by {
                if post.is_live(user_id, sid) {
                    let j = choose|j: int| 0 <= j < post.sessions_of(user_id).len() && #[trigger] post.sessions_of(user_id)[j].id == sid;
                    let j2 = if j < i { j } else { j + 1 };
                    assert(rest[j] == ss[j2]);
                }
            }
        }
        true
    }

    /// Whether `user_id` has a live session.
    pub fn is_connected(&self, user_id: UserId) -> (r: bool)
        ensures
            r == self@.sessions.contains_key(user_id),
    {
        self.users.contains_key(&user_id)
    }

    /// Whether the index holds an entry for `channel_id`.
    pub fn has_channel(&self, channel_id: ChannelId) -> (r: bool)
        ensures
            r == self@.channels.contains_key(channel_id),
    {
        self.channels.contains_key(&channel_id)
    }

    /// The identifiers of the live sessions of `user_id`, in the order they
    /// connected; empty when there are none.
    pub fn sessions_for(&self, user_id: UserId) -> (r: Vec<SessionId>)
        ensures
            r@ == self@.sessions_of(user_id).map_values(|s: SessionView| s.id),
    {
        let mut r: Vec<SessionId> = Vec::new();
        match self.users.get(&user_id) {
            Some(conns) => {
                let mut k: usize = 0;
                while k < conns.len()
                    invariant
                        k <= conns@.len(),
                        handles_view(conns@) == self@.sessions_of(user_id),
                        r@ == self@.sessions_of(user_id).take(k as int).map_values(|s: SessionView| s.id),
                    decreases conns@.len() - k,
                {
                    r.push(conns[k].id);
                    proof {
                        assert(self@.sessions_of(user_id)[k as int].id == conns@[k as int].id);
                        assert(r@ =~= self@.sessions_of(user_id).take(k as int + 1).map_values(|s: SessionView| s.id));
                    }
                    k = k + 1;
                }
                proof {
                    assert(self@.sessions_of(user_id).take(k as int) =~= self@.sessions_of(user_id));
                }
            },
            None => {
                assert(r@ =~= self@.sessions_of(user_id).map_values(|s: SessionView| s.id));
            },
        }
        r
    }

    /// The users recorded as interested in `channel_id`, each once; empty
    /// when the channel has no entry.
    pub fn subscribers_of(&self, channel_id: ChannelId) -> (r: Vec<UserId>)
        ensures
            r@.to_set() == self@.subscribers(channel_id),
            r@.no_duplicates(),
    {
        match self.channels.get(&channel_id) {
            Some(subs) => snapshot(subs),
            None => {
                let r: Vec<UserId> = Vec::new();
                assert(r@.to_set() =~= Set::<UserId>::empty());
                r
            },
        }
    }

    /// The sessions that a broadcast on `channel_id` excluding `exclude_user`
    /// reaches, each once: every live session, subscribed to the channel, of
    /// every recorded subscriber other than `exclude_user`. When the channel
    /// has no subscribers, the registry is not consulted.
    pub fn targets(&self, channel_id: ChannelId, exclude_user: Option<UserId>) -> (reached: Vec<(UserId, SessionId)>)
        requires
            self@.wf(),
        ensures
            reached@.no_duplicates(),
            forall|u: UserId, s: SessionId|
                #[trigger] reached@.contains((u, s)) <==> self@.is_target(channel_id, exclude_user, u, s),
    {
        let mut reached: Vec<(UserId, SessionId)> = Vec::new();
        let users = match self.channels.get(&channel_id) {
            Some(subs) => snapshot(subs),
            None => {
                assert forall|u: UserId, s: SessionId|
                    #[trigger] reached@.contains((u, s)) <==> self@.is_target(channel_id, exclude_user, u, s) by {
                    assert(!Set::<UserId>::empty().contains(u));
                }
                return reached;
            },
        };
        let mut k: usize = 0;
        while k < users.len()
            invariant
                self@.wf(),
                k <= users@.len(),
                users@.to_set() == self@.subscribers(channel_id),
                users@.no_duplicates(),
                reached@.no_duplicates(),
                forall|m: int| 0 <= m < reached@.len() ==>
                    self@.is_target(channel_id, exclude_user, #[trigger] reached@[m].0, reached@[m].1),
                forall|m: int| 0 <= m < reached@.len() ==> users@.take(k as int).contains(#[trigger] reached@[m].0),
                forall|v: UserId, t: SessionId| users@.take(k as int).contains(v) && self@.is_target(channel_id, exclude_user, v, t)
                    ==> #[trigger] reached@.contains((v, t)),
            decreases users@.len() - k,
        {
            let u = users[k];
            proof {
                assert(users@.to_set().contains(u));
                assert(users@.take(k as int + 1) =~= users@.take(k as int).push(u));
                assert(!users@.take(k as int).contains(u)) by {
                    if users@.take(k as int).contains(u) {
                        let j = choose|j: int| 0 <= j < k && users@.take(k as int)[j] == u;
                        assert(users@[j] == users@[k as int]);
                    }
                }
            }
            let skip = match exclude_user {
                Some(x) => x == u,
                None => false,
            };
            if !skip {
                match self.users.get(&u) {
                    Some(conns) => {
                        let ghost start = reached@;
                        let mut j: usize = 0;
                        while j < conns.len()
                            invariant
                                self@.wf(),
                                j <= conns@.len(),
                                handles_view(conns@) == self@.sessions_of(u),
                                self@.subscribers(channel_id).contains(u),
                                exclude_user != Some(u),
                                !users@.take(k as int).contains(u),
                                start.len() <= reached@.len(),
                                reached@.take(start.len() as int) == start,
                                forall|m: int| 0 <= m < start.len() ==> users@.take(k as int).contains(#[trigger] start[m].0),
                                reached@.no_duplicates(),
                                forall|m: int| 0 <= m < reached@.len() ==>
                                    self@.is_target(channel_id, exclude_user, #[trigger] reached@[m].0, reached@[m].1),
                                forall|m: int| start.len() <= m < reached@.len() ==> (#[trigger] reached@[m]).0 == u,
                                forall|m: int| start.len() <= m < reached@.len() ==>
                                    id_among(handles_view(conns@), j as int, (#[trigger] reached@[m]).1),
                                forall|v: UserId, t: SessionId| users@.take(k as int).contains(v) && self@.is_target(channel_id, exclude_user, v, t)
                                    ==> #[trigger] reached@.contains((v, t)),
                                forall|jj: int| 0 <= jj < j && #[trigger] conns@[jj].subscriptions@.contains(channel_id)
                                    ==> reached@.contains((u, conns@[jj].id)),
                            decreases conns@.len() - j,
                        {
                            let h = &conns[j];
                            let ghost before_j = reached@;
                            if h.subscriptions.contains(&channel_id) {
                                {
                                    let ghost prev = reached@;
                                    reached.push((u, h.id));
                                    proof {
                                        assert(self@.sessions_of(u)[j as int].id == h.id);
                                        assert(self@.sessions_of(u)[j as int].subs.contains(channel_id));
                                        assert(reached@.take(start.len() as int) =~= prev.take(start.len() as int));
                                        assert forall|a: int, b: int| 0 <= a < reached@.len() && 0 <= b < reached@.len() && a != b
                                            implies reached@[a] != reached@[b] by {
                                            if a < prev.len() && b < prev.len() {
                                                assert(prev[a] != prev[b]);
                                            } else {
                                                let o = if a < prev.len() { a } else { b };
                                                assert(o < prev.len());
                                                assert(reached@[prev.len() as int] == (u, h.id));
                                                assert(reached@[o] == prev[o]);
                                                if o < start.len() {
                                                    assert(prev.take(start.len() as int)[o] == start[o]);
                                                    assert(users@.take(k as int).contains(start[o].0));
                                                } else {
                                                    assert(prev[o].0 == u);
                                                    let jj = choose|jj: int| 0 <= jj < j && #[trigger] handles_view(conns@)[jj].id == prev[o].1;
                                                    assert(self@.sessions_of(u)[jj].id != self@.sessions_of(u)[j as int].id);
                                                }
                                            }
                                        }
                                    }
                                }
                            }
                            proof {
                                assert forall|m: int| start.len() <= m < reached@.len() implies (#[trigger] reached@[m]).0 == u
                                    && id_among(handles_view(conns@), j as int + 1, reached@[m].1) by {
                                    if m < before_j.len() {
                                        assert(reached@[m] == before_j[m]);
                                        assert(before_j[m].0 == u);
                                        assert(id_among(handles_view(conns@), j as int, before_j[m].1));
                                        let jj = choose|jj: int| 0 <= jj < j && #[trigger] handles_view(conns@)[jj].id == before_j[m].1;
                                        assert(handles_view(conns@)[jj].id == reached@[m].1);
                                    } else {
                                        assert(reached@[m] == (u, conns@[j as int].id));
                                        assert(handles_view(conns@)[j as int].id == conns@[j as int].id);
                                    }
                                }
                                lemma_grown_contains(before_j, reached@);
                                assert forall|jj: int| 0 <= jj < j + 1 && #[trigger] conns@[jj].subscriptions@.contains(channel_id)
                                    implies reached@.contains((u, conns@[jj].id)) by {
                                    if jj < j {
                                        assert(before_j.contains((u, conns@[jj].id)));
                                    } else {
                                        assert(reached@[reached@.len() - 1] == (u, conns@[j as int].id));
                                    }
                                }
                                assert forall|v: UserId, t: SessionId| users@.take(k as int).contains(v) && self@.is_target(channel_id, exclude_user, v, t)
                                    implies #[trigger] reached@.contains((v, t)) by {
                                    assert(before_j.contains((v, t)));
                                }
                            }
                            j = j + 1;
                        }
                        proof {
                            assert forall|m: int| 0 <= m < reached@.len() implies users@.take(k as int + 1).contains(#[trigger] reached@[m].0) by {
                                if m < start.len() {
                                    assert(reached@.take(start.len() as int)[m] == start[m]);
                                    assert(users@.take(k as int).contains(start[m].0));
                                    let q = choose|q: int| 0 <= q < k && users@.take(k as int)[q] == start[m].0;
                                    assert(users@.take(k as int + 1)[q] == start[m].0);
                                } else {
                                    assert(users@.take(k as int + 1)[k as int] == u);
                                }
                            }
                            assert forall|v: UserId, t: SessionId| users@.take(k as int + 1).contains(v) && self@.is_target(channel_id, exclude_user, v, t)
                                implies #[trigger] reached@.contains((v, t)) by {
                                if v == u {
                                    let i = choose|i: int| 0 <= i < self@.sessions_of(u).len() && #[trigger] self@.sessions_of(u)[i].id == t
                                        && self@.sessions_of(u)[i].subs.contains(channel_id);
                                    assert(handles_view(conns@)[i] == conns@[i]@);
                                    assert(conns@[i].subscriptions@.contains(channel_id));
                                } else {
                                    let q = choose|q: int| 0 <= q < k + 1 && #[trigger] users@.take(k as int + 1)[q] == v;
                                    assert(users@.take(k as int)[q] == v);
                                }
                            }
                        }
                    },
                    None => {
                        proof {
                            assert forall|v: UserId, t: SessionId| users@.take(k as int + 1).contains(v) && self@.is_target(channel_id, exclude_user, v, t)
                                implies #[trigger] reached@.contains((v, t)) by {
                                if v != u {
                                    let q = choose|q: int| 0 <= q < k + 1 && #[trigger] users@.take(k as int + 1)[q] == v;
                                    assert(users@.take(k as int)[q] == v);
                                }
                            }
                        }
                    },
                }
            } else {
                proof {
                    assert forall|v: UserId, t: SessionId| users@.take(k as int + 1).contains(v) && self@.is_target(channel_id, exclude_user, v, t)
                        implies #[trigger] reached@.contains((v, t)) by {
                        if v != u {
                            let q = choose|q: int| 0 <= q < k + 1 && #[trigger] users@.take(k as int + 1)[q] == v;
                            assert(users@.take(k as int)[q] == v);
                        }
                    }
                }
            }
            proof {
                assert forall|m: int| 0 <= m < reached@.len() implies users@.take(k as int + 1).contains(#[trigger] reached@[m].0) by {
                    if users@.take(k as int).contains(reached@[m].0) {
                        let q = choose|q: int| 0 <= q < k && users@.take(k as int)[q] == reached@[m].0;
                        assert(users@.take(k as int + 1)[q] == reached@[m].0);
                    }
                }
            }
            k = k + 1;
        }
        proof {
            assert(users@.take(k as int) =~= users@);
            assert forall|u: UserId, s: SessionId|
                #[trigger] reached@.contains((u, s)) <==> self@.is_target(channel_id, exclude_user, u, s) by {
                if reached@.contains((u, s)) {
                    let m = choose|m: int| 0 <= m < reached@.len() && reached@[m] == (u, s);
                    assert(self@.is_target(channel_id, exclude_user, reached@[m].0, reached@[m].1));
                }
                if self@.is_target(channel_id, exclude_user, u, s) {
                    assert(users@.to_set().contains(u));
                }
            }
        }
        reached
    }

    /// Fans `payload` out on `channel_id`: offers it once to every session
    /// that `targets` names, and records for each whether its queue took the
    /// frame. A session's own subscriptions are checked again
    /// just before its frame is queued. A closed queue is recorded as not
    /// taken and the remaining sessions are still offered the frame. When the
    /// channel has no subscribers, the registry is not consulted and there
    /// are no outcomes.
    pub fn broadcast(&self, channel_id: ChannelId, payload: &String, exclude_user: Option<UserId>) -> (outcomes: Vec<Outcome>)
        requires
            self@.wf(),
        ensures
            reached(outcomes@).no_duplicates(),
            forall|u: UserId, s: SessionId|
                #[trigger] reached(outcomes@).contains((u, s)) <==> self@.is_target(channel_id, exclude_user, u, s),
            self@.subscribers(channel_id).is_empty() ==> outcomes@.len() == 0,
    {
        let plan = self.targets(channel_id, exclude_user);
        let mut outcomes: Vec<Outcome> = Vec::new();
        let mut k: usize = 0;
        while k < plan.len()
            invariant
                k <= plan@.len(),
                reached(outcomes@) == plan@.take(k as int),
            decreases plan@.len() - k,
        {
            let (u, s) = plan[k];
            let took = match self.users.get(&u) {
                Some(conns) => match find_session(conns, s) {
                    Some(i) => {
                        let h = &conns[i];
                        h.subscriptions.contains(&channel_id) && enqueue(&h.tx, payload.clone())
                    },
                    None => false,
                },
                None => false,
            };
            let ghost prev = outcomes@;
            outcomes.push(((u, s), took));
            proof {
                assert(plan@[k as int] == (u, s));
                assert(reached(outcomes@) =~= reached(prev).push((u, s)));
                assert(plan@.take(k as int + 1) =~= plan@.take(k as int).push((u, s)));
            }
            k = k + 1;
        }
        proof {
            assert(plan@.take(k as int) =~= plan@);
            if self@.subscribers(channel_id).is_empty() && outcomes@.len() > 0 {
                assert(reached(outcomes@)[0] == plan@[0]);
                assert(plan@.contains((plan@[0].0, plan@[0].1)));
                assert(!Set::<UserId>::empty().contains(plan@[0].0));
            }
        }
        outcomes
    }
}

/// How many of `outcomes` record a queue that took the frame.
pub fn delivered_count(outcomes: &Vec<Outcome>) -> (n: usize)
    ensures
        n == accepted(outcomes@).len(),
{
    let mut n: usize = 0;
    let mut k: usize = 0;
    while k < outcomes.len()
        invariant
            k <= outcomes@.len(),
            n == accepted(outcomes@.take(k as int)).len(),
            n <= k,
        decreases outcomes@.len() - k,
    {
        proof {
            assert(outcomes@.take(k as int + 1) =~= outcomes@.take(k as int).push(outcomes@[k as int]));
            outcomes@.take(k as int).lemma_filter_push(outcomes@[k as int], |p: Outcome| p.1);
        }
        if outcomes[k].1 {
            n = n + 1;
        }
        k = k + 1;
    }
    proof {
        assert(outcomes@.take(k as int) =~= outcomes@);
    }
    n
}

/// The number of sessions whose queue took `payload` when it was fanned out
/// on `channel_id`, excluding the sessions of `exclude_user`: every target
/// is offered the frame once, and the count is how many of those offers
/// were taken. Zero when the channel has no subscribers.
pub fn broadcast_to_channel(
    connection_map: &ConnectionMap,
    channel_id: ChannelId,
    payload: &String,
    exclude_user: Option<UserId>,
) -> (count: usize)
    requires
        connection_map@.wf(),
    ensures
        exists|o: Seq<Outcome>|
            {
                &&& reached(o).no_duplicates()
                &&& forall|u: UserId, s: SessionId|
                    #[trigger] reached(o).contains((u, s)) <==> connection_map@.is_target(channel_id, exclude_user, u, s)
                &&& count == accepted(o).len()
            },
        connection_map@.subscribers(channel_id).is_empty() ==> count == 0,
{
    let outcomes = connection_map.broadcast(channel_id, payload, exclude_user);
    let count = delivered_count(&outcomes);
    proof {
        outcomes@.lemma_filter_len(|p: Outcome| p.1);
    }
    count
}

impl Default for ConnectionMap {
    /// Same as `ConnectionMap::new`.
    fn default() -> (r: Self)
        ensures
            r@.wf(),
            r@.sessions == Map::<UserId, Seq<SessionView>>::empty(),
            r@.channels == Map::<ChannelId, Set<UserId>>::empty(),
            r@.next_session == 0,
    {
        ConnectionMap::new()
    }
}

/// Whatever `prev` holds, a sequence that extends it holds too.
proof fn lemma_grown_contains<A>(prev: Seq<A>, next: Seq<A>)
    requires
        prev.len() <= next.len(),
        forall|m: int| 0 <= m < prev.len() ==> next[m] == prev[m],
    ensures
        forall|x: A| prev.contains(x) ==> #[trigger] next.contains(x),
{
    assert forall|x: A| prev.contains(x) implies #[trigger] next.contains(x) by {
        let m = choose|m: int| 0 <= m < prev.len() && prev[m] == x;
        assert(next[m] == x);
    }
}

/// One of the first `n` sessions of `ss` has identifier `id`.
spec fn id_among(ss: Seq<SessionView>, n: int, id: SessionId) -> bool {
    exists|jj: int| 0 <= jj < n && #[trigger] ss[jj].id == id
}

/// Whether one of the sessions in `conns` is subscribed to `c`.
fn any_session_on(conns: &Vec<ConnectionHandle>, c: ChannelId) -> (r: bool)
    ensures
        r == any_subscribed(handles_view(conns@), c),
{
    let mut k: usize = 0;
    while k < conns.len()
        invariant
            k <= conns@.len(),
            forall|j: int| 0 <= j < k ==> !(#[trigger] conns@[j].subscriptions@.contains(c)),
        decreases conns@.len() - k,
    {
        if conns[k].subscriptions.contains(&c) {
            assert(handles_view(conns@)[k as int].subs.contains(c));
            return true;
        }
        k = k + 1;
    }
    assert forall|j: int| 0 <= j < handles_view(conns@).len() implies !(#[trigger] handles_view(conns@)[j].subs.contains(c)) by {
        assert(handles_view(conns@)[j].subs == conns@[j].subscriptions@);
    }
    false
}

/// Where the session `sid` stands in `conns`, if it is there.
fn find_session(conns: &Vec<ConnectionHandle>, sid: SessionId) -> (r: Option<usize>)
    ensures
        match r {
            Some(i) => i < conns@.len() && conns@[i as int].id == sid,
            None => forall|j: int| 0 <= j < conns@.len() ==> #[trigger] conns@[j].id != sid,
        },
{
    let mut k: usize = 0;
    while k < conns.len()
        invariant
            k <= conns@.len(),
            forall|j: int| 0 <= j < k ==> #[trigger] conns@[j].id != sid,
        decreases conns@.len() - k,
    {
        if conns[k].id == sid {
            return Some(k);
        }
        k = k + 1;
    }
    None
}

/// The members of `s`, each once, in the order the set yields them.
fn snapshot(s: &HashSet<u128>) -> (v: Vec<u128>)
    ensures
        v@.to_set() == s@,
        v@.no_duplicates(),
{
    let mut v: Vec<u128> = Vec::new();
    for x in it: s.iter()
        invariant
            v@ == it.seq().unref().take(it.index() as int),
            it.seq().unref().to_set() == s@,
            it.seq().unref().no_duplicates(),
            it.index() == it.seq().len() ==> v@.to_set() == s@ && v@.no_duplicates(),
    {
        v.push(*x);
        proof {
            assert(v@ =~= it.seq().unref().take(it.index() as int + 1));
            assert(it.index() + 1 == it.seq().len() ==> v@ =~= it.seq().unref());
        }
    }
    v
}

} // verus!
