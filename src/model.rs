//! The mathematical state of the registry and the subscription index, the
//! invariants tying them together, and the steps that change them.

use vstd::prelude::*;
use crate::protocol::{ChannelId, SessionId, UserId};

verus! {

/// What the library knows of one live session: its identifier and the
/// channels it is subscribed to.
pub struct SessionView {
    pub id: SessionId,
    pub subs: Set<ChannelId>,
}

/// The state of the connection registry and of the subscription index.
pub struct RegistryView {
    /// Each connected user's live sessions, in the order they connected.
    pub sessions: Map<UserId, Seq<SessionView>>,
    /// Each channel with an interested user, and those users.
    pub channels: Map<ChannelId, Set<UserId>>,
    /// The identifier the next registered session receives.
    pub next_session: SessionId,
}

/// One of the sessions `ss` is subscribed to `c`.
pub open spec fn any_subscribed(ss: Seq<SessionView>, c: ChannelId) -> bool {
    exists|i: int| 0 <= i < ss.len() && #[trigger] ss[i].subs.contains(c)
}

/// Replacing a session by one that agrees with it on `c` does not change
/// whether some session is subscribed to `c`.
pub proof fn lemma_update_keeps(ss: Seq<SessionView>, i: int, s: SessionView, c: ChannelId)
    requires
        0 <= i < ss.len(),
        s.subs.contains(c) == ss[i].subs.contains(c),
    ensures
        any_subscribed(ss.update(i, s), c) == any_subscribed(ss, c),
{
    if any_subscribed(ss, c) {
        let j = choose|j: int| 0 <= j < ss.len() && #[trigger] ss[j].subs.contains(c);
        assert(ss.update(i, s)[j].subs.contains(c));
    }
    if any_subscribed(ss.update(i, s), c) {
        let j = choose|j: int| 0 <= j < ss.len() && #[trigger] ss.update(i, s)[j].subs.contains(c);
        assert(ss[j].subs.contains(c));
    }
}

/// A session subscribed to `c` makes `c` covered.
pub proof fn lemma_update_covers(ss: Seq<SessionView>, i: int, s: SessionView, c: ChannelId)
    requires
        0 <= i < ss.len(),
        s.subs.contains(c),
    ensures
        any_subscribed(ss.update(i, s), c),
{
    assert(ss.update(i, s)[i].subs.contains(c));
}

/// Dropping a session that is not subscribed to `c` does not change whether
/// some session is subscribed to `c`.
pub proof fn lemma_remove_keeps(ss: Seq<SessionView>, i: int, c: ChannelId)
    requires
        0 <= i < ss.len(),
        !ss[i].subs.contains(c),
    ensures
        any_subscribed(ss.remove(i), c) == any_subscribed(ss, c),
{
    if any_subscribed(ss, c) {
        let j = choose|j: int| 0 <= j < ss.len() && #[trigger] ss[j].subs.contains(c);
        if j < i {
            assert(ss.remove(i)[j].subs.contains(c));
        } else {
            assert(ss.remove(i)[j - 1].subs.contains(c));
        }
    }
    if any_subscribed(ss.remove(i), c) {
        let j = choose|j: int| 0 <= j < ss.len() - 1 && #[trigger] ss.remove(i)[j].subs.contains(c);
        if j < i {
            assert(ss[j].subs.contains(c));
        } else {
            assert(ss[j + 1].subs.contains(c));
        }
    }
}

impl RegistryView {
    /// The live sessions of `u`; empty when `u` has none.
    pub open spec fn sessions_of(self, u: UserId) -> Seq<SessionView> {
        if self.sessions.contains_key(u) {
            self.sessions[u]
        } else {
            Seq::empty()
        }
    }

    /// The users recorded as interested in `c`; empty when there is no entry.
    pub open spec fn subscribers(self, c: ChannelId) -> Set<UserId> {
        if self.channels.contains_key(c) {
            self.channels[c]
        } else {
            Set::empty()
        }
    }

    /// Some live session of `u` is subscribed to `c`.
    pub open spec fn has_session_on(self, u: UserId, c: ChannelId) -> bool {
        any_subscribed(self.sessions_of(u), c)
    }

    /// Session `s` of user `u` is live.
    pub open spec fn is_live(self, u: UserId, s: SessionId) -> bool {
        exists|i: int| 0 <= i < self.sessions_of(u).len() && #[trigger] self.sessions_of(u)[i].id == s
    }

    /// Where session `s` stands among the sessions of `u` (meaningful when live).
    pub open spec fn index_of(self, u: UserId, s: SessionId) -> int {
        choose|i: int| 0 <= i < self.sessions_of(u).len() && #[trigger] self.sessions_of(u)[i].id == s
    }

    /// Session `s` of `u` is one that a broadcast on `c` excluding `exclude`
    /// delivers to: `u` is a recorded subscriber of `c` other than `exclude`,
    /// and `s` is a live session of `u` that is itself subscribed to `c`.
    pub open spec fn is_target(self, c: ChannelId, exclude: Option<UserId>, u: UserId, s: SessionId) -> bool {
        &&& self.subscribers(c).contains(u)
        &&& exclude != Some(u)
        &&& exists|i: int|
            0 <= i < self.sessions_of(u).len() && #[trigger] self.sessions_of(u)[i].id == s
                && self.sessions_of(u)[i].subs.contains(c)
    }

    /// The channels that live session `s` of `u` is subscribed to.
    pub open spec fn subs_of(self, u: UserId, s: SessionId) -> Set<ChannelId> {
        self.sessions_of(u)[self.index_of(u, s)].subs
    }

    /// The sessions once live session `s` of `u` holds exactly `subs`.
    pub open spec fn with_subs(self, u: UserId, s: SessionId, subs: Set<ChannelId>) -> Map<UserId, Seq<SessionView>> {
        self.sessions.insert(u, self.sessions_of(u).update(self.index_of(u, s), SessionView { id: s, subs }))
    }

    /// The sessions once session `s` of `u` is gone; `u` leaves the registry
    /// with its last session.
    pub open spec fn without_session(self, u: UserId, s: SessionId) -> Map<UserId, Seq<SessionView>> {
        let rest = self.sessions_of(u).remove(self.index_of(u, s));
        if rest.len() == 0 {
            self.sessions.remove(u)
        } else {
            self.sessions.insert(u, rest)
        }
    }

    /// A user is in the registry exactly when it has a live session, and every
    /// session identifier was issued before and is unique among its user's.
    pub open spec fn registry_wf(self) -> bool {
        &&& forall|u: UserId| #[trigger] self.sessions.contains_key(u) ==> self.sessions[u].len() > 0
        &&& forall|u: UserId, i: int|
            0 <= i < self.sessions_of(u).len() ==> #[trigger] self.sessions_of(u)[i].id
                < self.next_session
        &&& forall|u: UserId, i: int, j: int|
            0 <= i < self.sessions_of(u).len() && 0 <= j < self.sessions_of(u).len() && i != j
                ==> #[trigger] self.sessions_of(u)[i].id != #[trigger] self.sessions_of(u)[j].id
    }

    /// A user is recorded under a channel exactly when one of its live
    /// sessions is subscribed to it, and no channel entry is left empty.
    pub open spec fn index_wf(self) -> bool {
        &&& forall|c: ChannelId| #[trigger] self.channels.contains_key(c) ==> !self.channels[c].is_empty()
        &&& forall|c: ChannelId, u: UserId|
            #[trigger] self.subscribers(c).contains(u) <==> self.has_session_on(u, c)
    }

    pub open spec fn wf(self) -> bool {
        self.registry_wf() && self.index_wf()
    }
}

/// Changing the subscriptions of one session keeps the registry well formed.
pub proof fn lemma_registry_wf_update(pre: RegistryView, post: RegistryView, u: UserId, i: int, s: SessionView)
    requires
        pre.registry_wf(),
        pre.sessions.contains_key(u),
        0 <= i < pre.sessions[u].len(),
        s.id == pre.sessions[u][i].id,
        post.sessions == pre.sessions.insert(u, pre.sessions[u].update(i, s)),
        post.next_session == pre.next_session,
    ensures
        post.registry_wf(),
{
    assert forall|v: UserId, k: int| 0 <= k < post.sessions_of(v).len()
        implies #[trigger] post.sessions_of(v)[k].id < post.next_session by {
        if v == u {
            assert(post.sessions_of(v)[k].id == pre.sessions_of(v)[k].id);
        } else {
            assert(post.sessions_of(v) == pre.sessions_of(v));
        }
    }
    assert forall|v: UserId, k: int, j: int|
        0 <= k < post.sessions_of(v).len() && 0 <= j < post.sessions_of(v).len() && k != j
        implies #[trigger] post.sessions_of(v)[k].id != #[trigger] post.sessions_of(v)[j].id by {
        if v == u {
            assert(post.sessions_of(v)[k].id == pre.sessions_of(v)[k].id);
            assert(post.sessions_of(v)[j].id == pre.sessions_of(v)[j].id);
        } else {
            assert(post.sessions_of(v) == pre.sessions_of(v));
        }
    }
}

/// The live session `s` of `u` sits at `i`.
pub proof fn lemma_index_of(m: RegistryView, u: UserId, s: SessionId, i: int)
    requires
        m.registry_wf(),
        0 <= i < m.sessions_of(u).len(),
        m.sessions_of(u)[i].id == s,
    ensures
        m.is_live(u, s),
        m.index_of(u, s) == i,
{
    assert(m.sessions_of(u)[i].id == s);
}

/// Dropping one session keeps the registry well formed.
pub proof fn lemma_registry_wf_remove(pre: RegistryView, post: RegistryView, u: UserId, i: int)
    requires
        pre.registry_wf(),
        0 <= i < pre.sessions_of(u).len(),
        post.sessions == (if pre.sessions_of(u).remove(i).len() == 0 {
            pre.sessions.remove(u)
        } else {
            pre.sessions.insert(u, pre.sessions_of(u).remove(i))
        }),
        post.next_session == pre.next_session,
    ensures
        post.registry_wf(),
        post.sessions_of(u) == pre.sessions_of(u).remove(i),
        forall|v: UserId| v != u ==> #[trigger] post.sessions_of(v) == pre.sessions_of(v),
{
    let rest = pre.sessions_of(u).remove(i);
    assert(post.sessions_of(u) =~= rest);
    assert forall|v: UserId, k: int| 0 <= k < post.sessions_of(v).len()
        implies #[trigger] post.sessions_of(v)[k].id < post.next_session by {
        if v == u {
            if k < i {
                assert(rest[k] == pre.sessions_of(u)[k]);
            } else {
                assert(rest[k] == pre.sessions_of(u)[k + 1]);
            }
        } else {
            assert(post.sessions_of(v) == pre.sessions_of(v));
        }
    }
    assert forall|v: UserId, k: int, j: int|
        0 <= k < post.sessions_of(v).len() && 0 <= j < post.sessions_of(v).len() && k != j
        implies #[trigger] post.sessions_of(v)[k].id != #[trigger] post.sessions_of(v)[j].id by {
        if v == u {
            let k2 = if k < i { k } else { k + 1 };
            let j2 = if j < i { j } else { j + 1 };
            assert(rest[k] == pre.sessions_of(u)[k2]);
            assert(rest[j] == pre.sessions_of(u)[j2]);
        } else {
            assert(post.sessions_of(v) == pre.sessions_of(v));
        }
    }
}

/// `post` is `pre` after session `s` of `u` subscribed to `c`: nothing
/// changes unless the session is live.
pub open spec fn subscribed(pre: RegistryView, post: RegistryView, u: UserId, s: SessionId, c: ChannelId) -> bool {
    &&& post.wf()
    &&& post.next_session == pre.next_session
    &&& forall|v: UserId, t: SessionId| #[trigger] post.is_live(v, t) == pre.is_live(v, t)
    &&& pre.is_live(u, s) ==> post.sessions == pre.with_subs(u, s, pre.subs_of(u, s).insert(c))
    &&& pre.is_live(u, s) ==> post.subs_of(u, s) == pre.subs_of(u, s).insert(c)
    &&& !pre.is_live(u, s) ==> post == pre
}

/// `post` is `pre` after session `s` of `u` unsubscribed from `c`: nothing
/// changes unless the session is live.
pub open spec fn unsubscribed(pre: RegistryView, post: RegistryView, u: UserId, s: SessionId, c: ChannelId) -> bool {
    &&& post.wf()
    &&& post.next_session == pre.next_session
    &&& forall|v: UserId, t: SessionId| #[trigger] post.is_live(v, t) == pre.is_live(v, t)
    &&& pre.is_live(u, s) ==> post.sessions == pre.with_subs(u, s, pre.subs_of(u, s).remove(c))
    &&& pre.is_live(u, s) ==> post.subs_of(u, s) == pre.subs_of(u, s).remove(c)
    &&& !pre.is_live(u, s) ==> post == pre
}

/// `post` is `pre` after session `s` of `u` was torn down.
pub open spec fn disconnected(pre: RegistryView, post: RegistryView, u: UserId, s: SessionId) -> bool {
    &&& post.wf()
    &&& post.next_session == pre.next_session
    &&& !post.is_live(u, s)
    &&& forall|v: UserId, t: SessionId| (v, t) != (u, s) ==> #[trigger] post.is_live(v, t) == pre.is_live(v, t)
    &&& pre.is_live(u, s) ==> post.sessions == pre.without_session(u, s)
    &&& !pre.is_live(u, s) ==> post == pre
}

/// Changing one session's subscriptions leaves every session as live as it was.
pub proof fn lemma_with_subs_keeps_live(pre: RegistryView, post: RegistryView, u: UserId, s: SessionId, subs: Set<ChannelId>)
    requires
        pre.is_live(u, s),
        post.sessions == pre.with_subs(u, s, subs),
    ensures
        forall|v: UserId, t: SessionId| #[trigger] post.is_live(v, t) == pre.is_live(v, t),
{
    let i = pre.index_of(u, s);
    assert forall|v: UserId, t: SessionId| #[trigger] post.is_live(v, t) == pre.is_live(v, t) by {
        if v == u {
            assert forall|k: int| 0 <= k < pre.sessions_of(u).len() implies
                #[trigger] post.sessions_of(u)[k].id == pre.sessions_of(u)[k].id by {}
            if pre.is_live(v, t) {
                let k = choose|k: int| 0 <= k < pre.sessions_of(v).len() && #[trigger] pre.sessions_of(v)[k].id == t;
                assert(post.sessions_of(v)[k].id == t);
            }
            if post.is_live(v, t) {
                let k = choose|k: int| 0 <= k < post.sessions_of(v).len() && #[trigger] post.sessions_of(v)[k].id == t;
                assert(pre.sessions_of(v)[k].id == t);
            }
        } else {
            assert(post.sessions_of(v) == pre.sessions_of(v));
        }
    }
}

/// Removing one session leaves every other session as live as it was.
pub proof fn lemma_remove_keeps_live(pre: RegistryView, post: RegistryView, u: UserId, s: SessionId)
    requires
        pre.is_live(u, s),
        post.sessions_of(u) == pre.sessions_of(u).remove(pre.index_of(u, s)),
        forall|v: UserId| v != u ==> #[trigger] post.sessions_of(v) == pre.sessions_of(v),
    ensures
        forall|v: UserId, t: SessionId| (v, t) != (u, s) ==> #[trigger] post.is_live(v, t) == pre.is_live(v, t),
{
    let i = pre.index_of(u, s);
    assert forall|v: UserId, t: SessionId| (v, t) != (u, s) implies #[trigger] post.is_live(v, t) == pre.is_live(v, t) by {
        if v == u {
            if pre.is_live(v, t) {
                let k = choose|k: int| 0 <= k < pre.sessions_of(v).len() && #[trigger] pre.sessions_of(v)[k].id == t;
                assert(k != i);
                if k < i {
                    assert(post.sessions_of(v)[k].id == t);
                } else {
                    assert(post.sessions_of(v)[k - 1].id == t);
                }
            }
            if post.is_live(v, t) {
                let k = choose|k: int| 0 <= k < post.sessions_of(v).len() && #[trigger] post.sessions_of(v)[k].id == t;
                if k < i {
                    assert(pre.sessions_of(v)[k].id == t);
                } else {
                    assert(pre.sessions_of(v)[k + 1].id == t);
                }
            }
        }
    }
}

/// A live session subscribed to `c`, of a user other than the excluded one,
/// is a target of a broadcast on `c`.
pub proof fn lemma_live_subscriber_is_target(m: RegistryView, c: ChannelId, exclude: Option<UserId>, u: UserId, s: SessionId)
    requires
        m.wf(),
        m.is_live(u, s),
        m.subs_of(u, s).contains(c),
        exclude != Some(u),
    ensures
        m.is_target(c, exclude, u, s),
{
    let i = m.index_of(u, s);
    assert(m.sessions_of(u)[i].id == s);
    assert(m.sessions_of(u)[i].subs.contains(c));
}

} // verus!
