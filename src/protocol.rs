//! Identifiers and frames of the real-time protocol.

use vstd::prelude::*;

verus! {

/// A user's identifier, as the 128-bit value of its UUID.
pub type UserId = u128;

/// A channel's identifier, as the 128-bit value of its UUID.
pub type ChannelId = u128;

/// Identifies one live session among all sessions the registry has issued.
pub type SessionId = u64;

/// A frame of the real-time protocol: the first three come from clients, the
/// others go to them.
#[derive(Debug, Clone)]
pub enum WsMessage {
    Subscribe { channel_id: ChannelId },
    Unsubscribe { channel_id: ChannelId },
    SendMessage { channel_id: ChannelId, content: String },
    MessageCreated {
        id: u128,
        channel_id: ChannelId,
        user_id: UserId,
        username: String,
        content: String,
        created_at: String,
    },
    Error { message: String },
    Subscribed { channel_id: ChannelId },
    Unsubscribed { channel_id: ChannelId },
}

impl WsMessage {
    /// Frames that a client may send.
    pub open spec fn is_inbound_spec(&self) -> bool {
        match self {
            WsMessage::Subscribe { .. } => true,
            WsMessage::Unsubscribe { .. } => true,
            WsMessage::SendMessage { .. } => true,
            _ => false,
        }
    }

    /// Whether a client may send this frame.
    pub fn is_inbound(&self) -> (r: bool)
        ensures
            r == self.is_inbound_spec(),
    {
        match self {
            WsMessage::Subscribe { .. } => true,
            WsMessage::Unsubscribe { .. } => true,
            WsMessage::SendMessage { .. } => true,
            _ => false,
        }
    }
}

} // verus!
