//! The OAuth scopes this library cares about.

use vstd::prelude::*;

verus! {

/// The scope whose key material carries the account's sync key.
pub const OLD_SYNC: &'static str = "https://identity.mozilla.com/apps/oldsync";

/// The basic profile scope.
pub const PROFILE: &'static str = "profile";

} // verus!
