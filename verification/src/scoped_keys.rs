//! Per-scope key material the OAuth collaborator hands the account.

use vstd::prelude::*;

verus! {

/// One scoped key: its identifier and the URL-safe base64 text of the key.
pub struct ScopedKey {
    /// The key id: a timestamp, a dash, then the URL-safe base64 key-check value.
    pub kid: String,
    /// The raw key, as URL-safe base64 without padding.
    pub k: String,
}

} // verus!
