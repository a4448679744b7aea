use vstd::prelude::*;

pub mod crypto;
pub mod hex;
pub mod laws;
pub mod password_database;

verus! {

/// Length in bytes of every random salt in the vault.
pub const SALT_LEN: usize = 16;

/// Length in bytes of a derived credential (a 256-bit digest).
pub const CREDENTIAL_LEN: usize = 32;

/// Number of leading credential bytes rendered by the master-password
/// fingerprint.
pub const FINGERPRINT_LEN: usize = 3;

} // verus!
