//! The password store's entry type. Encryption and the encrypted file
//! itself are handled outside this crate's verified core.

use vstd::prelude::*;

verus! {

/// One stored credential: the service it belongs to, the account name,
/// and the secret itself (never rendered by this crate).
#[derive(Clone)]
pub struct PasswordEntry {
    pub service: String,
    pub username: String,
    pub password: String,
}

} // verus!
