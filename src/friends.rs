//! Friend-request and user-search inputs.

use vstd::prelude::*;

verus! {

/// A friend request addressed by user name.
#[derive(Debug, Clone)]
pub struct SendFriendRequestBody {
    pub username: String,
}

/// A user search: an optional name fragment and a result window.
#[derive(Debug, Clone)]
pub struct SearchUsersQuery {
    pub username: Option<String>,
    pub limit: i64,
    pub offset: i64,
}

/// Result count of a user search that names none.
pub fn default_limit() -> (r: i64)
    ensures
        r == 20,
{
    20
}

impl SearchUsersQuery {
    /// A search with the default window: the first twenty matches.
    pub fn new(username: Option<String>) -> (r: Self)
        ensures
            r.username == username,
            r.limit == 20,
            r.offset == 0,
    {
        SearchUsersQuery { username, limit: default_limit(), offset: 0 }
    }
}

} // verus!
