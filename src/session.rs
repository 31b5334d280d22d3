//! The per-session lifecycle: its phases and the decisions its driver takes.

use vstd::prelude::*;
use tokio::sync::mpsc::UnboundedSender;
use crate::model::{disconnected, subscribed, unsubscribed, RegistryView, SessionView};
use crate::protocol::{SessionId, UserId, WsMessage};
use crate::registry::ConnectionMap;

verus! {

/// Where a session is in its life: registered and serving frames once
/// `Active`, and `Closed` for good once torn down.
#[derive(Debug, Clone, Copy, PartialEq, Eq, Structural)]
pub enum Phase {
    Connecting,
    Active,
    Closing,
    Closed,
}

/// The acknowledgement owed for a frame: subscribe and unsubscribe are
/// acknowledged; no other frame is.
pub open spec fn ack_for(msg: WsMessage) -> Option<WsMessage> {
    match msg {
        WsMessage::Subscribe { channel_id } => Some(WsMessage::Subscribed { channel_id }),
        WsMessage::Unsubscribe { channel_id } => Some(WsMessage::Unsubscribed { channel_id }),
        _ => None,
    }
}

/// `post` is `pre` after session `s` of `u` received frame `msg`: when it is
/// serving, a subscribe or unsubscribe takes effect; nothing else changes.
pub open spec fn frame_effect(
    pre: RegistryView,
    post: RegistryView,
    u: UserId,
    s: SessionId,
    serving: bool,
    msg: WsMessage,
) -> bool {
    &&& post.wf()
    &&& match msg {
        WsMessage::Subscribe { channel_id } if serving => subscribed(pre, post, u, s, channel_id),
        WsMessage::Unsubscribe { channel_id } if serving => unsubscribed(pre, post, u, s, channel_id),
        _ => post == pre,
    }
}

/// What the transport produced for a session.
#[derive(Debug, Clone)]
pub enum SessionEvent {
    /// A well-formed protocol frame.
    Frame(WsMessage),
    /// A frame that is not a protocol message.
    Malformed,
    /// The peer closed the connection.
    TransportClosed,
    /// Reading from the connection failed.
    ReadFailed,
    /// Writing to the connection failed.
    WriteFailed,
}

/// What the driver does after an event.
#[derive(Debug, Clone)]
pub enum SessionAction {
    /// Queue this frame to the session itself.
    Reply(WsMessage),
    /// Nothing to send; keep serving.
    Continue,
    /// Stop both loops; once both have stopped, call `close`.
    Stop,
}

/// The decisions of one session's driver. The driver's loops feed it what
/// the transport produced and perform the replies it returns.
pub struct Connection {
    user_id: UserId,
    session: SessionId,
    phase: Phase,
}

impl Connection {
    pub closed spec fn user_spec(&self) -> UserId {
        self.user_id
    }

    pub closed spec fn session_spec(&self) -> SessionId {
        self.session
    }

    pub closed spec fn phase_spec(&self) -> Phase {
        self.phase
    }

    /// The session is active and still live in `m`.
    pub open spec fn is_active_in(&self, m: RegistryView) -> bool {
        self.phase_spec() == Phase::Active && m.is_live(self.user_spec(), self.session_spec())
    }

    /// The session is registered and not yet torn down.
    pub open spec fn is_serving(&self) -> bool {
        self.phase_spec() == Phase::Active || self.phase_spec() == Phase::Closing
    }

    /// A session of `user_id` that is not registered yet.
    pub fn new(user_id: UserId) -> (r: Self)
        ensures
            r.user_spec() == user_id,
            r.phase_spec() == Phase::Connecting,
    {
        Connection { user_id, session: 0, phase: Phase::Connecting }
    }

    pub fn user_id(&self) -> (r: UserId)
        ensures
            r == self.user_spec(),
    {
        self.user_id
    }

    /// The registry's identifier of this session (meaningful once opened).
    pub fn session_id(&self) -> (r: SessionId)
        ensures
            r == self.session_spec(),
    {
        self.session
    }

    pub fn phase(&self) -> (r: Phase)
        ensures
            r == self.phase_spec(),
    {
        self.phase
    }

    /// The transport was upgraded: registers the session, with no
    /// subscriptions, delivering through `tx`, and makes it active.
    pub fn open(&mut self, map: &mut ConnectionMap, tx: UnboundedSender<String>)
        requires
            old(self).phase_spec() == Phase::Connecting,
            old(map)@.wf(),
            old(map)@.next_session < u64::MAX,
        ensures
            final(self).phase_spec() == Phase::Active,
            final(self).user_spec() == old(self).user_spec(),
            final(self).session_spec() == old(map)@.next_session,
            final(map)@.wf(),
            final(map)@.is_live(final(self).user_spec(), final(self).session_spec()),
            final(map)@.next_session == old(map)@.next_session + 1,
            final(map)@.sessions == old(map)@.sessions.insert(
                old(self).user_spec(),
                old(map)@.sessions_of(old(self).user_spec()).push(
                    SessionView { id: final(self).session_spec(), subs: Set::empty() },
                ),
            ),
            final(map)@.channels == old(map)@.channels,
    {
        let sid = map.register(self.user_id, tx);
        self.session = sid;
        self.phase = Phase::Active;
        proof {
            let ss = map@.sessions_of(self.user_id);
            assert(ss[ss.len() - 1].id == sid);
        }
    }

    /// Interprets one well-formed inbound frame of an active session. A
    /// subscribe or unsubscribe changes the session's subscriptions and the
    /// index, and is acknowledged; any other frame changes nothing and gets
    /// no reply. Outside `Active`, or once the session is gone from the
    /// registry, nothing changes and nothing is replied.
    pub fn handle_message(&mut self, map: &mut ConnectionMap, msg: WsMessage) -> (reply: Option<WsMessage>)
        requires
            old(map)@.wf(),
        ensures
            *final(self) == *old(self),
            final(map)@.wf(),
            reply == if old(self).is_active_in(old(map)@) { ack_for(msg) } else { None },
            frame_effect(old(map)@, final(map)@, old(self).user_spec(), old(self).session_spec(), old(self).is_active_in(old(map)@), msg),
    {
        if self.phase != Phase::Active {
            return None;
        }
        match msg {
            WsMessage::Subscribe { channel_id } => {
                if map.subscribe(self.user_id, self.session, channel_id) {
                    Some(WsMessage::Subscribed { channel_id })
                } else {
                    None
                }
            },
            WsMessage::Unsubscribe { channel_id } => {
                if map.unsubscribe(self.user_id, self.session, channel_id) {
                    Some(WsMessage::Unsubscribed { channel_id })
                } else {
                    None
                }
            },
            _ => None,
        }
    }

    /// One step of the driver. A frame is interpreted as `handle_message`
    /// says, and its reply, if any, is to be queued. A malformed frame is
    /// dropped and the session keeps serving. A close, a read failure or a
    /// write failure is fatal to this session only: an active session moves
    /// to `Closing` and both loops are to stop. Only frames change the
    /// registry.
    pub fn on_event(&mut self, map: &mut ConnectionMap, event: SessionEvent) -> (action: SessionAction)
        requires
            old(map)@.wf(),
        ensures
            final(map)@.wf(),
            final(self).user_spec() == old(self).user_spec(),
            final(self).session_spec() == old(self).session_spec(),
            match event {
                SessionEvent::Frame(msg) => {
                    &&& *final(self) == *old(self)
                    &&& action == if old(self).is_active_in(old(map)@) && ack_for(msg) is Some {
                        SessionAction::Reply(ack_for(msg)->Some_0)
                    } else {
                        SessionAction::Continue
                    }
                    &&& frame_effect(old(map)@, final(map)@, old(self).user_spec(), old(self).session_spec(), old(self).is_active_in(old(map)@), msg)
                },
                SessionEvent::Malformed => {
                    &&& action is Continue
                    &&& *final(self) == *old(self)
                    &&& final(map)@ == old(map)@
                },
                _ => {
                    &&& action is Stop
                    &&& final(self).phase_spec() == if old(self).phase_spec() == Phase::Active {
                        Phase::Closing
                    } else {
                        old(self).phase_spec()
                    }
                    &&& final(map)@ == old(map)@
                },
            },
    {
        match event {
            SessionEvent::Frame(msg) => match self.handle_message(map, msg) {
                Some(reply) => SessionAction::Reply(reply),
                None => SessionAction::Continue,
            },
            SessionEvent::Malformed => SessionAction::Continue,
            _ => {
                if self.phase == Phase::Active {
                    self.phase = Phase::Closing;
                }
                SessionAction::Stop
            },
        }
    }

    /// Teardown, once both loops have stopped: a session that was serving
    /// (`Active` or `Closing`) is removed from the registry and the index;
    /// the session ends `Closed`. Closing again changes nothing.
    pub fn close(&mut self, map: &mut ConnectionMap)
        requires
            old(map)@.wf(),
        ensures
            final(self).phase_spec() == Phase::Closed,
            final(self).user_spec() == old(self).user_spec(),
            final(self).session_spec() == old(self).session_spec(),
            final(map)@.wf(),
            old(self).is_serving() ==> disconnected(
                old(map)@,
                final(map)@,
                old(self).user_spec(),
                old(self).session_spec(),
            ),
            !old(self).is_serving() ==> final(map)@ == old(map)@,
    {
        if self.phase == Phase::Active || self.phase == Phase::Closing {
            map.disconnect(self.user_id, self.session);
        }
        self.phase = Phase::Closed;
    }
}

} // verus!
