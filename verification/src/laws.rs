//! Laws of the vault, stated over the mathematical model that the vault
//! operations' contracts use.

use vstd::prelude::*;
use crate::password_database::{
    VaultModel, Error, store_result, remove_result, verify_result, credential_for,
    fingerprint_chars,
};

verus! {

/// Storing a password and then verifying it, with the master password held
/// constant, succeeds.
pub proof fn lemma_store_then_verify_succeeds(
    v: VaultModel,
    account: Seq<char>,
    password: Seq<char>,
    account_salt: Seq<u8>,
)
    ensures
        verify_result(store_result(v, account, password, account_salt), account, password)
            == Ok::<(), Error>(()),
{
}

/// Storing one password and then verifying another fails with
/// `WrongPassword`, whenever the two passwords' derived keys differ. Distinct
/// passwords collide under the derivation only with negligible probability,
/// but they can, so the difference of the derived keys is the hypothesis.
pub proof fn lemma_verify_other_password_fails(
    v: VaultModel,
    account: Seq<char>,
    stored_password: Seq<char>,
    attempted: Seq<char>,
    account_salt: Seq<u8>,
)
    ensures
        ({
            let after = store_result(v, account, stored_password, account_salt);
            credential_for(v.iterations, v.db_salt, account_salt, v.master_password, attempted)
                != after.accounts[account].credential ==> verify_result(after, account, attempted)
                == Err::<(), Error>(Error::WrongPassword)
        }),
{
}

/// Changing the master password between store and verify, with the account
/// password held constant, fails with `WrongPassword` whenever the keys
/// derived under the two master passwords differ: the master password is an
/// implicit second factor in every credential.
pub proof fn lemma_changed_master_password_fails(
    v: VaultModel,
    account: Seq<char>,
    password: Seq<char>,
    account_salt: Seq<u8>,
    other_master: Seq<char>,
)
    ensures
        ({
            let after = store_result(v, account, password, account_salt);
            let rebound = VaultModel { master_password: other_master, ..after };
            credential_for(v.iterations, v.db_salt, account_salt, other_master, password)
                != after.accounts[account].credential ==> verify_result(rebound, account, password)
                == Err::<(), Error>(Error::WrongPassword)
        }),
{
}

/// After an account is removed, verifying any password for it fails with
/// `AccountDoesNotExist`.
pub proof fn lemma_verify_after_remove_fails(
    v: VaultModel,
    account: Seq<char>,
    attempted: Seq<char>,
)
    ensures
        verify_result(remove_result(v, account), account, attempted) == Err::<(), Error>(
            Error::AccountDoesNotExist,
        ),
{
}

/// Removing an account that is not stored changes nothing.
pub proof fn lemma_remove_absent_is_noop(v: VaultModel, account: Seq<char>)
    requires
        !v.accounts.contains_key(account),
    ensures
        remove_result(v, account) == v,
{
    assert(v.accounts.remove(account) =~= v.accounts);
    assert(remove_result(v, account) =~= v);
}

/// The master-password fingerprint is deterministic: it depends on the
/// iteration count, the vault salt and the master password alone, never on
/// the stored entries.
pub proof fn lemma_fingerprint_deterministic(v1: VaultModel, v2: VaultModel)
    requires
        v1.iterations == v2.iterations,
        v1.db_salt == v2.db_salt,
        v1.master_password == v2.master_password,
    ensures
        fingerprint_chars(v1) == fingerprint_chars(v2),
{
}

} // verus!
