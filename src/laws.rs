//! Properties of the registry and the index that hold across operations.

use vstd::prelude::*;
use crate::model::{any_subscribed, disconnected, subscribed, unsubscribed, RegistryView};
use crate::protocol::{ChannelId, SessionId, UserId};

verus! {

/// A user is among a channel's subscribers exactly when one of its live
/// sessions is subscribed to that channel.
pub proof fn law_subscribers_match_sessions(m: RegistryView, c: ChannelId, u: UserId)
    requires
        m.wf(),
    ensures
        m.subscribers(c).contains(u) <==> exists|i: int|
            0 <= i < m.sessions_of(u).len() && #[trigger] m.sessions_of(u)[i].subs.contains(c),
{
}

/// A user appears in the connection registry exactly when it has at least
/// one live session.
pub proof fn law_registered_iff_live(m: RegistryView, u: UserId)
    requires
        m.wf(),
    ensures
        m.sessions.contains_key(u) <==> m.sessions_of(u).len() > 0,
{
}

/// Two well-formed states with the same sessions have the same subscribers
/// on every channel.
pub proof fn lemma_sessions_decide_subscribers(a: RegistryView, b: RegistryView)
    requires
        a.wf(),
        b.wf(),
        a.sessions == b.sessions,
    ensures
        forall|c: ChannelId| #[trigger] a.subscribers(c) == b.subscribers(c),
{
    assert forall|c: ChannelId| #[trigger] a.subscribers(c) == b.subscribers(c) by {
        assert forall|u: UserId| a.subscribers(c).contains(u) <==> b.subscribers(c).contains(u) by {
            assert(a.sessions_of(u) == b.sessions_of(u));
        }
        assert(a.subscribers(c) =~= b.subscribers(c));
    }
}

/// Subscribing the same session to the same channel a second time changes
/// neither the sessions nor any channel's subscribers.
pub proof fn law_subscribe_idempotent(
    m0: RegistryView,
    m1: RegistryView,
    m2: RegistryView,
    u: UserId,
    s: SessionId,
    c: ChannelId,
)
    requires
        m0.wf(),
        subscribed(m0, m1, u, s, c),
        subscribed(m1, m2, u, s, c),
    ensures
        m2.sessions == m1.sessions,
        forall|d: ChannelId| #[trigger] m2.subscribers(d) == m1.subscribers(d),
        m2.subscribers(c).len() == m1.subscribers(c).len(),
{
    if m0.is_live(u, s) {
        let i = m0.index_of(u, s);
        assert(m1.sessions_of(u)[i].id == s);
        assert(m1.is_live(u, s));
        assert(m1.index_of(u, s) == i);
        assert(m1.subs_of(u, s) == m0.subs_of(u, s).insert(c));
        assert(m1.subs_of(u, s).insert(c) =~= m1.subs_of(u, s));
        assert(m1.sessions_of(u).update(i, m1.sessions_of(u)[i]) =~= m1.sessions_of(u));
        assert(m2.sessions =~= m1.sessions);
    }
    lemma_sessions_decide_subscribers(m2, m1);
}

/// With two live sessions of `u` subscribed to `c` and no other session of
/// `u` on it, unsubscribing the first leaves `u` a subscriber of `c`, and
/// unsubscribing the second then removes it.
pub proof fn law_last_session_unsubscribes(
    m0: RegistryView,
    m1: RegistryView,
    m2: RegistryView,
    u: UserId,
    s1: SessionId,
    s2: SessionId,
    c: ChannelId,
)
    requires
        m0.wf(),
        s1 != s2,
        m0.is_live(u, s1),
        m0.is_live(u, s2),
        m0.subs_of(u, s1).contains(c),
        m0.subs_of(u, s2).contains(c),
        forall|i: int|
            0 <= i < m0.sessions_of(u).len() && #[trigger] m0.sessions_of(u)[i].subs.contains(c)
                ==> m0.sessions_of(u)[i].id == s1 || m0.sessions_of(u)[i].id == s2,
        unsubscribed(m0, m1, u, s1, c),
        unsubscribed(m1, m2, u, s2, c),
    ensures
        m1.subscribers(c).contains(u),
        !m2.subscribers(c).contains(u),
{
    let i1 = m0.index_of(u, s1);
    let i2 = m0.index_of(u, s2);
    let ss0 = m0.sessions_of(u);
    assert(i1 != i2);
    let ss1 = m1.sessions_of(u);
    assert(ss1 == ss0.update(i1, crate::model::SessionView { id: s1, subs: ss0[i1].subs.remove(c) }));
    assert(ss1[i2] == ss0[i2]);
    assert(ss1[i2].subs.contains(c));
    assert(m1.has_session_on(u, c));
    assert(ss1[i2].id == s2);
    assert(m1.is_live(u, s2));
    assert(m1.index_of(u, s2) == i2);
    let ss2 = m2.sessions_of(u);
    assert(ss2 == ss1.update(i2, crate::model::SessionView { id: s2, subs: ss1[i2].subs.remove(c) }));
    assert(!m2.has_session_on(u, c)) by {
        if any_subscribed(ss2, c) {
            let j = choose|j: int| 0 <= j < ss2.len() && #[trigger] ss2[j].subs.contains(c);
            if j != i1 && j != i2 {
                assert(ss0[j].subs.contains(c));
                assert(ss0[j].id == s1 || ss0[j].id == s2);
            }
        }
    }
}

/// A broadcast that excludes `x` never targets a session of `x`.
pub proof fn law_excluded_user_untargeted(m: RegistryView, c: ChannelId, x: UserId, s: SessionId)
    ensures
        !m.is_target(c, Some(x), x, s),
{
}

/// A channel without subscribers has no target at all.
pub proof fn law_empty_channel_untargeted(
    m: RegistryView,
    c: ChannelId,
    exclude: Option<UserId>,
    u: UserId,
    s: SessionId,
)
    requires
        m.subscribers(c).is_empty(),
    ensures
        !m.is_target(c, exclude, u, s),
{
    assert(!Set::<UserId>::empty().contains(u));
}

/// After a session is torn down it is no longer live, and every channel it
/// held keeps `u` as a subscriber only while another live session of `u` is
/// still subscribed to it; no channel keeps any user without such a session.
pub proof fn law_teardown_leaves_no_orphans(m0: RegistryView, m1: RegistryView, u: UserId, s: SessionId)
    requires
        m0.wf(),
        disconnected(m0, m1, u, s),
    ensures
        !m1.is_live(u, s),
        forall|c: ChannelId, v: UserId| #[trigger] m1.subscribers(c).contains(v) ==> m1.has_session_on(v, c),
        m0.is_live(u, s) ==> forall|c: ChannelId| #![auto] m0.subs_of(u, s).contains(c) ==> (m1.subscribers(c).contains(u)
            <==> any_subscribed(m0.sessions_of(u).remove(m0.index_of(u, s)), c)),
{
    if m0.is_live(u, s) {
        let rest = m0.sessions_of(u).remove(m0.index_of(u, s));
        assert forall|c: ChannelId| m0.subs_of(u, s).contains(c) implies (m1.subscribers(c).contains(u)
            <==> any_subscribed(rest, c)) by {
            if rest.len() == 0 {
                assert(m1.sessions_of(u) =~= rest);
            } else {
                assert(m1.sessions_of(u) == rest);
            }
        }
    }
}

} // verus!
