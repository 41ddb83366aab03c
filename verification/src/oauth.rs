//! Token material the OAuth collaborator hands the account.

use vstd::prelude::*;

verus! {

/// The long-lived token the account authenticates with.
pub struct RefreshToken {
    pub token: String,
}

/// A short-lived access token for one scope.
pub struct AccessTokenInfo {
    pub scope: String,
    pub token: String,
    pub expires_at: u64,
}

} // verus!
