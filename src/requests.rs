//! Plain request and claim types accepted by the surrounding API.

use vstd::prelude::*;

verus! {

/// The kind of a persisted channel.
#[derive(Debug, Clone, Copy, PartialEq, Eq, Structural)]
pub enum ChannelType {
    Text,
    Voice,
    Dm,
    GroupDm,
}

/// Where a friendship between two users stands.
#[derive(Debug, Clone, Copy, PartialEq, Eq, Structural)]
pub enum FriendshipStatus {
    Pending,
    Accepted,
    Rejected,
    Blocked,
}

/// The presence a user shows to others.
#[derive(Debug, Clone, Copy, PartialEq, Eq, Structural)]
pub enum ProfileStatus {
    Online,
    Away,
    Offline,
    Dnd,
}

#[derive(Debug, Clone)]
pub struct CreateChannelRequest {
    pub name: String,
    pub channel_type: Option<ChannelType>,
    pub topic: Option<String>,
}

#[derive(Debug, Clone)]
pub struct UpdateChannelRequest {
    pub name: Option<String>,
    pub position: Option<i32>,
    pub topic: Option<String>,
}

#[derive(Debug, Clone)]
pub struct CreateMessageRequest {
    pub content: String,
}

#[derive(Debug, Clone)]
pub struct CreateFolderRequest {
    pub name: String,
    pub color: Option<String>,
}

#[derive(Debug, Clone)]
pub struct UpdateFolderRequest {
    pub name: Option<String>,
    pub color: Option<String>,
    pub position: Option<i32>,
}

#[derive(Debug, Clone)]
pub struct CreateServerRequest {
    pub name: String,
}

#[derive(Debug, Clone)]
pub struct UpdateProfileRequest {
    pub display_name: Option<String>,
    pub bio: Option<String>,
    pub avatar_url: Option<String>,
    pub banner_url: Option<String>,
    pub status: Option<String>,
    pub custom_status: Option<String>,
    pub status_emoji: Option<String>,
    pub show_online_status: Option<bool>,
    pub allow_dms: Option<bool>,
}

#[derive(Debug, Clone)]
pub struct CreateUserRequest {
    pub username: String,
    pub email: String,
    pub password: String,
}

/// Credentials for signing in, by user name or by e-mail address.
#[derive(Debug, Clone)]
pub struct LoginRequest {
    pub username: Option<String>,
    pub email: Option<String>,
    pub password: String,
}

/// What a bearer token asserts: the user (`sub`) and its validity window,
/// in seconds since the epoch.
#[derive(Debug, Clone)]
pub struct Claims {
    pub sub: String,
    pub exp: i64,
    pub iat: i64,
}

/// The query of a real-time upgrade request: the bearer token.
#[derive(Debug, Clone)]
pub struct WsQuery {
    pub token: String,
}

} // verus!
