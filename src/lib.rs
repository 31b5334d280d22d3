//! Real-time connection tracking and channel fanout for a chat backend,
//! together with the plain request types that the surrounding API accepts.

pub mod pagination;
pub mod protocol;
mod outbox;
pub mod model;
pub mod registry;
pub mod session;
pub mod laws;
pub mod requests;
pub mod friends;
