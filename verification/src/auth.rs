//! The shapes of the token lifecycle: the grant response, the credential
//! state, and the planned grant request. The state machine itself lives
//! on the client.

use vstd::prelude::*;

verus! {

/// The platform's answer to a token grant or refresh.
#[derive(Debug, Clone, PartialEq)]
pub struct TokenResponse {
    pub access_token: String,
    pub refresh_token: String,
    pub expire_time: u128,
    pub uid: String,
}

/// The credential's state at a given time.
#[derive(Clone, Copy, Debug, PartialEq, Eq, Structural)]
pub enum TokenState {
    /// No access token is held.
    Empty,
    /// An access token is held and has not expired.
    Valid,
    /// An access token is held but its expiry has passed.
    Expired,
}

/// The grant request the manager wants sent: the token endpoint path
/// (with the refresh token embedded on a refresh) and its query.
pub struct GrantPlan {
    pub path: String,
    pub params: Vec<(String, String)>,
}

} // verus!
