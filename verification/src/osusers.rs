//! Trusted access to the host's user database and process identity.
//!
//! Each function wraps one call into the `users` crate.  What they return
//! depends on the machine's account database and the process's credentials,
//! so no contract pins their results; callers state what holds of every
//! outcome.

use vstd::prelude::*;

verus! {

/// Relies on users::get_current_uid: the real uid of this process.
#[verifier::external_body]
pub fn current_uid() -> u32 {
    users::get_current_uid()
}

/// Relies on users::get_effective_uid: the effective uid of this process.
#[verifier::external_body]
pub fn effective_uid() -> u32 {
    users::get_effective_uid()
}

/// Relies on users::get_user_by_uid: the account name for a uid, or `None`
/// when no such account exists in the host's user database.
#[verifier::external_body]
pub fn lookup_username(uid: u32) -> Option<String> {
    users::get_user_by_uid(uid).map(|user| user.name().to_string_lossy().into_owned())
}

} // verus!
