//! The credential vault: salted, key-derived credentials bound to a vault
//! salt, a per-account salt and a session master password.

use vstd::prelude::*;
use vstd::utf8::encode_utf8;
use crate::crypto::derived_key_of;
use crate::hex::hex_str;

verus! {

/// The errors the vault reports. Creation refuses a zero iteration count;
/// verification distinguishes an unknown account from a failed credential
/// comparison.
#[derive(Clone, Copy, Debug, PartialEq, Eq, Structural)]
pub enum Error {
    InvalidConfig,
    WrongPassword,
    AccountDoesNotExist,
}

/// Mathematical content of one stored credential.
#[verifier::ext_equal]
pub struct CredentialModel {
    pub credential: Seq<u8>,
    pub salt: Seq<u8>,
}

/// Mathematical content of the whole vault.
#[verifier::ext_equal]
pub struct VaultModel {
    pub iterations: u32,
    pub db_salt: Seq<u8>,
    pub master_password: Seq<char>,
    pub accounts: Map<Seq<char>, CredentialModel>,
}

/// One stored credential: the derived key and the salt that was drawn fresh
/// when the password was (re)stored. Neither is ever the raw password.
pub struct SaltedCredential {
    pub credential: Vec<u8>,
    pub salt: Vec<u8>,
}

impl View for SaltedCredential {
    type V = CredentialModel;

    open spec fn view(&self) -> CredentialModel {
        CredentialModel { credential: self.credential@, salt: self.salt@ }
    }
}

impl SaltedCredential {
    /// Both byte sequences have their fixed lengths.
    pub open spec fn wf(self) -> bool {
        &&& self@.credential.len() == crate::CREDENTIAL_LEN
        &&& self@.salt.len() == crate::SALT_LEN
    }
}

/// The salt a credential is derived under: the vault salt, then the account
/// salt, then the UTF-8 bytes of the master password, in that order.
pub open spec fn combined_salt(
    db_salt: Seq<u8>,
    account_salt: Seq<u8>,
    master_password: Seq<char>,
) -> Seq<u8> {
    db_salt + account_salt + encode_utf8(master_password)
}

/// The credential stored for a password under the given salts and master
/// password.
pub open spec fn credential_for(
    iterations: u32,
    db_salt: Seq<u8>,
    account_salt: Seq<u8>,
    master_password: Seq<char>,
    password: Seq<char>,
) -> Seq<u8> {
    derived_key_of(
        iterations,
        combined_salt(db_salt, account_salt, master_password),
        encode_utf8(password),
    )
}

/// The vault after a password is stored for `account` with the fresh
/// `account_salt`: the one entry is inserted or overwritten, nothing else
/// changes.
pub open spec fn store_result(
    v: VaultModel,
    account: Seq<char>,
    password: Seq<char>,
    account_salt: Seq<u8>,
) -> VaultModel {
    VaultModel {
        accounts: v.accounts.insert(
            account,
            CredentialModel {
                credential: credential_for(
                    v.iterations,
                    v.db_salt,
                    account_salt,
                    v.master_password,
                    password,
                ),
                salt: account_salt,
            },
        ),
        ..v
    }
}

/// The vault after an account is removed: its entry leaves the mapping,
/// nothing else changes. Removing an absent account changes nothing.
pub open spec fn remove_result(v: VaultModel, account: Seq<char>) -> VaultModel {
    VaultModel { accounts: v.accounts.remove(account), ..v }
}

/// What verification returns: unknown accounts are reported as such, and an
/// attempt succeeds exactly when its credential, derived under the stored
/// account salt and the current master password, equals the stored one.
pub open spec fn verify_result(v: VaultModel, account: Seq<char>, attempted: Seq<char>) -> Result<
    (),
    Error,
> {
    if !v.accounts.contains_key(account) {
        Err(Error::AccountDoesNotExist)
    } else if v.accounts[account].credential == credential_for(
        v.iterations,
        v.db_salt,
        v.accounts[account].salt,
        v.master_password,
        attempted,
    ) {
        Ok(())
    } else {
        Err(Error::WrongPassword)
    }
}

/// The master-password fingerprint: the first `FINGERPRINT_LEN` bytes of the
/// key derived from the master password under the vault salt alone, rendered
/// as lowercase hexadecimal. It depends only on the iteration count, the
/// vault salt and the master password.
pub open spec fn fingerprint_chars(v: VaultModel) -> Seq<char> {
    hex_str(
        derived_key_of(v.iterations, v.db_salt, encode_utf8(v.master_password)).take(
            crate::FINGERPRINT_LEN as int,
        ),
    )
}

/// No account name occurs twice in the entry list.
pub open spec fn unique_keys(s: Seq<(String, SaltedCredential)>) -> bool {
    forall|i: int, j: int|
        0 <= i < j < s.len() ==> (#[trigger] s[i]).0@ != (#[trigger] s[j]).0@
}

/// The mapping an entry list stands for; later entries win, though the vault
/// keeps its keys unique.
pub open spec fn accounts_map(s: Seq<(String, SaltedCredential)>) -> Map<Seq<char>, CredentialModel>
    decreases s.len(),
{
    if s.len() == 0 {
        Map::empty()
    } else {
        accounts_map(s.drop_last()).insert(s.last().0@, s.last().1@)
    }
}

proof fn lemma_unique_keys_drop_last(s: Seq<(String, SaltedCredential)>)
    requires
        unique_keys(s),
        s.len() > 0,
    ensures
        unique_keys(s.drop_last()),
{
    assert forall|i: int, j: int|
        0 <= i < j < s.drop_last().len() implies (#[trigger] s.drop_last()[i]).0@ != (
    #[trigger] s.drop_last()[j]).0@ by {
        assert(s.drop_last()[i] == s[i]);
        assert(s.drop_last()[j] == s[j]);
    }
}

proof fn lemma_accounts_map_contains(s: Seq<(String, SaltedCredential)>, k: Seq<char>)
    ensures
        accounts_map(s).contains_key(k) <==> exists|i: int|
            0 <= i < s.len() && (#[trigger] s[i]).0@ == k,
    decreases s.len(),
{
    if s.len() == 0 {
    } else {
        lemma_accounts_map_contains(s.drop_last(), k);
        let last = s.len() - 1;
        if s[last].0@ == k {
            assert(s.last() == s[last]);
            assert(accounts_map(s).contains_key(k));
        } else {
            if exists|i: int| 0 <= i < s.len() && (#[trigger] s[i]).0@ == k {
                let i = choose|i: int| 0 <= i < s.len() && (#[trigger] s[i]).0@ == k;
                assert(i != last);
                assert(s.drop_last()[i] == s[i]);
            }
            if accounts_map(s.drop_last()).contains_key(k) {
                let i = choose|i: int|
                    0 <= i < s.drop_last().len() && (#[trigger] s.drop_last()[i]).0@ == k;
                assert(s.drop_last()[i] == s[i]);
            }
        }
    }
}

proof fn lemma_accounts_map_index(s: Seq<(String, SaltedCredential)>, i: int)
    requires
        unique_keys(s),
        0 <= i < s.len(),
    ensures
        accounts_map(s).contains_key(s[i].0@),
        accounts_map(s)[s[i].0@] == s[i].1@,
    decreases s.len(),
{
    let last = s.len() - 1;
    assert(s.last() == s[last]);
    if i == last {
    } else {
        lemma_unique_keys_drop_last(s);
        lemma_accounts_map_index(s.drop_last(), i);
        assert(s.drop_last()[i] == s[i]);
        assert(s[last].0@ != s[i].0@);
    }
}

proof fn lemma_accounts_map_push(s: Seq<(String, SaltedCredential)>, p: (String, SaltedCredential))
    ensures
        accounts_map(s.push(p)) == accounts_map(s).insert(p.0@, p.1@),
{
    assert(s.push(p).drop_last() =~= s);
    assert(s.push(p).last() == p);
}

proof fn lemma_accounts_map_remove(s: Seq<(String, SaltedCredential)>, i: int)
    requires
        unique_keys(s),
        0 <= i < s.len(),
    ensures
        accounts_map(s.remove(i)) == accounts_map(s).remove(s[i].0@),
        unique_keys(s.remove(i)),
        !accounts_map(s.remove(i)).contains_key(s[i].0@),
    decreases s.len(),
{
    s.remove_ensures(i);
    let k = s[i].0@;
    let t = s.remove(i);
    let last = s.len() - 1;
    assert(s.last() == s[last]);
    lemma_unique_keys_drop_last(s);
    assert forall|a: int, b: int|
        0 <= a < b < t.len() implies (#[trigger] t[a]).0@ != (#[trigger] t[b]).0@ by {
        let sa: int = if a < i {
            a
        } else {
            a + 1
        };
        let sb: int = if b < i {
            b
        } else {
            b + 1
        };
        assert(t[a] == s[sa]);
        assert(t[b] == s[sb]);
    }
    assert forall|a: int| 0 <= a < t.len() implies (#[trigger] t[a]).0@ != k by {
        let sa: int = if a < i {
            a
        } else {
            a + 1
        };
        assert(t[a] == s[sa]);
    }
    lemma_accounts_map_contains(t, k);
    if i == last {
        assert(t =~= s.drop_last());
        lemma_accounts_map_contains(s.drop_last(), k);
        assert forall|a: int|
            0 <= a < s.drop_last().len() implies (#[trigger] s.drop_last()[a]).0@ != k by {
            assert(s.drop_last()[a] == s[a]);
        }
        assert(accounts_map(s).remove(k) =~= accounts_map(s.drop_last()));
    } else {
        assert(t.last() == s[last]);
        assert(t.drop_last() =~= s.drop_last().remove(i));
        assert(s.drop_last()[i] == s[i]);
        lemma_accounts_map_remove(s.drop_last(), i);
        assert(s[last].0@ != k);
        assert(accounts_map(t) =~= accounts_map(s).remove(k));
    }
}

proof fn lemma_accounts_map_len(s: Seq<(String, SaltedCredential)>)
    requires
        unique_keys(s),
    ensures
        accounts_map(s).dom().finite(),
        accounts_map(s).dom().len() == s.len(),
    decreases s.len(),
{
    if s.len() == 0 {
        assert(accounts_map(s).dom() =~= Set::<Seq<char>>::empty());
    } else {
        lemma_unique_keys_drop_last(s);
        lemma_accounts_map_len(s.drop_last());
        let last = s.len() - 1;
        assert(s.last() == s[last]);
        lemma_accounts_map_contains(s.drop_last(), s[last].0@);
        assert forall|a: int|
            0 <= a < s.drop_last().len() implies (#[trigger] s.drop_last()[a]).0@ != s[last].0@ by {
            assert(s.drop_last()[a] == s[a]);
        }
        assert(!accounts_map(s.drop_last()).contains_key(s[last].0@));
        assert(accounts_map(s).dom() =~= accounts_map(s.drop_last()).dom().insert(s[last].0@));
    }
}

/// The vault: an iteration count and vault salt fixed at creation, the
/// account entries, and the session master password (never persisted).
pub struct PasswordDatabase {
    iterations: u32,
    db_salt: Vec<u8>,
    storage: Vec<(String, SaltedCredential)>,
    master_password: String,
}

impl View for PasswordDatabase {
    type V = VaultModel;

    closed spec fn view(&self) -> VaultModel {
        VaultModel {
            iterations: self.iterations,
            db_salt: self.db_salt@,
            master_password: self.master_password@,
            accounts: accounts_map(self.storage@),
        }
    }
}

impl PasswordDatabase {
    /// The vault's invariant: a positive iteration count, a vault salt of the
    /// fixed length, no account listed twice, and well-formed credentials.
    pub closed spec fn wf(self) -> bool {
        &&& self.iterations > 0
        &&& self.db_salt@.len() == crate::SALT_LEN
        &&& unique_keys(self.storage@)
        &&& forall|i: int| 0 <= i < self.storage@.len() ==> (#[trigger] self.storage@[i]).1.wf()
    }

    /// The entry list behind the vault's mapping, for persistence.
    pub closed spec fn entries_seq(&self) -> Seq<(String, SaltedCredential)> {
        self.storage@
    }

    /// Creates a fresh vault: a newly drawn random vault salt, no entries and
    /// an empty master password. A zero iteration count is refused.
    pub fn new(iterations: u32) -> (r: Result<PasswordDatabase, Error>)
        ensures
            (match r {
                Ok(db) => {
                    &&& iterations > 0
                    &&& db.wf()
                    &&& db@.iterations == iterations
                    &&& db@.db_salt.len() == crate::SALT_LEN
                    &&& db@.master_password == Seq::<char>::empty()
                    &&& db@.accounts == Map::<Seq<char>, CredentialModel>::empty()
                },
                Err(e) => iterations == 0 && e == Error::InvalidConfig,
            }),
    {
        if iterations == 0 {
            return Err(Error::InvalidConfig);
        }
        let db = PasswordDatabase {
            iterations,
            db_salt: crate::crypto::random_salt(),
            storage: Vec::new(),
            master_password: String::new(),
        };
        Ok(db)
    }

    /// Replaces the session master password. No validation: emptiness is a
    /// caller-level sentinel, not this component's concern.
    pub fn set_master_password(&mut self, master_password: String)
        ensures
            final(self)@ == (VaultModel { master_password: master_password@, ..old(self)@ }),
            final(self).wf() == old(self).wf(),
    {
        self.master_password = master_password;
    }

    /// The index of `username` in the entry list, if it is there.
    fn find_index(storage: &Vec<(String, SaltedCredential)>, username: &String) -> (r: Option<
        usize,
    >)
        ensures
            (match r {
                Some(i) => i < storage@.len() && storage@[i as int].0@ == username@,
                None => forall|i: int|
                    0 <= i < storage@.len() ==> (#[trigger] storage@[i]).0@ != username@,
            }),
    {
        let mut i: usize = 0;
        while i < storage.len()
            invariant
                i <= storage@.len(),
                forall|j: int| 0 <= j < i ==> (#[trigger] storage@[j]).0@ != username@,
            decreases storage@.len() - i,
        {
            if storage[i].0 == *username {
                return Some(i);
            }
            i += 1;
        }
        None
    }

    /// The combined salt for one account: the vault salt, the account salt,
    /// then the master password's UTF-8 bytes, concatenated in that order so
    /// that the derived key binds all three at once.
    fn salt(&self, account_salt: &[u8]) -> (r: Vec<u8>)
        ensures
            r@ == combined_salt(self@.db_salt, account_salt@, self@.master_password),
    {
        let mut salt: Vec<u8> = Vec::new();
        extend_bytes(&mut salt, self.db_salt.as_slice());
        extend_bytes(&mut salt, account_salt);
        extend_bytes(&mut salt, self.master_password.as_str().as_bytes());
        proof {
            assert(salt@ =~= combined_salt(self@.db_salt, account_salt@, self@.master_password));
        }
        salt
    }

    /// Stores (or overwrites) the credential for `username`: a fresh random
    /// account salt is drawn and the derived key of `password` under the
    /// combined salt replaces any earlier entry. Nothing else changes.
    pub fn store_password(&mut self, username: &str, password: &str)
        requires
            old(self).wf(),
        ensures
            final(self).wf(),
            final(self)@.accounts.contains_key(username@),
            final(self)@.accounts[username@].salt.len() == crate::SALT_LEN,
            final(self)@ == store_result(
                old(self)@,
                username@,
                password@,
                final(self)@.accounts[username@].salt,
            ),
    {
        let key = username.to_owned();
        let ghost before = self.storage@;
        match Self::find_index(&self.storage, &key) {
            Some(i) => {
                proof {
                    lemma_accounts_map_remove(self.storage@, i as int);
                }
                self.storage.remove(i);
            },
            None => {
                proof {
                    lemma_accounts_map_contains(before, username@);
                    assert(accounts_map(before).remove(username@) =~= accounts_map(before));
                }
            },
        }
        let ghost pruned = self.storage@;
        let account_salt = crate::crypto::random_salt();
        let salt = self.salt(account_salt.as_slice());
        let credential = crate::crypto::pbkdf2_derive(
            self.iterations,
            salt.as_slice(),
            password.as_bytes(),
        );
        proof {
            lemma_accounts_map_contains(pruned, username@);
            lemma_accounts_map_push(
                pruned,
                (key, SaltedCredential { credential, salt: account_salt }),
            );
        }
        self.storage.push((key, SaltedCredential { credential, salt: account_salt }));
        proof {
            assert forall|a: int, b: int|
                0 <= a < b < self.storage@.len() implies (#[trigger] self.storage@[a]).0@ != (
            #[trigger] self.storage@[b]).0@ by {
                if b < self.storage@.len() - 1 {
                    assert(self.storage@[a] == pruned[a]);
                    assert(self.storage@[b] == pruned[b]);
                } else {
                    assert(self.storage@[a] == pruned[a]);
                }
            }
            assert(accounts_map(before).remove(username@).insert(
                username@,
                self.storage@.last().1@,
            ) =~= accounts_map(before).insert(username@, self.storage@.last().1@));
            assert(final(self)@ =~= store_result(
                old(self)@,
                username@,
                password@,
                final(self)@.accounts[username@].salt,
            ));
        }
    }

    /// Deletes the entry for `username`. Absence is not an error: removing an
    /// unknown account leaves the vault unchanged.
    pub fn remove_password(&mut self, username: &str)
        requires
            old(self).wf(),
        ensures
            final(self).wf(),
            final(self)@ == remove_result(old(self)@, username@),
    {
        let key = username.to_owned();
        match Self::find_index(&self.storage, &key) {
            Some(i) => {
                proof {
                    lemma_accounts_map_remove(self.storage@, i as int);
                }
                self.storage.remove(i);
            },
            None => {
                proof {
                    lemma_accounts_map_contains(self.storage@, username@);
                    assert(accounts_map(self.storage@).remove(username@) =~= accounts_map(
                        self.storage@,
                    ));
                }
            },
        }
        proof {
            assert(final(self)@ =~= remove_result(old(self)@, username@));
        }
    }

    /// Verifies an attempted password for `username`: reports an unknown
    /// account, and otherwise recomputes the derived key under the stored
    /// account salt and the current master password and compares it to the
    /// stored credential in constant time.
    pub fn verify_password(&self, username: &str, attempted_password: &str) -> (r: Result<
        (),
        Error,
    >)
        requires
            self.wf(),
        ensures
            r == verify_result(self@, username@, attempted_password@),
    {
        let key = username.to_owned();
        match Self::find_index(&self.storage, &key) {
            Some(i) => {
                proof {
                    lemma_accounts_map_index(self.storage@, i as int);
                }
                let entry = &self.storage[i].1;
                let salt = self.salt(entry.salt.as_slice());
                if crate::crypto::pbkdf2_matches(
                    self.iterations,
                    salt.as_slice(),
                    attempted_password.as_bytes(),
                    entry.credential.as_slice(),
                ) {
                    Ok(())
                } else {
                    Err(Error::WrongPassword)
                }
            },
            None => {
                proof {
                    lemma_accounts_map_contains(self.storage@, username@);
                }
                Err(Error::AccountDoesNotExist)
            },
        }
    }

    /// Picks one stored account name at random; nothing on an empty vault.
    pub fn get_random_username(&self) -> (r: Option<String>)
        requires
            self.wf(),
        ensures
            r is Some <==> self@.accounts.dom().len() > 0,
            (match r {
                Some(u) => self@.accounts.contains_key(u@),
                None => true,
            }),
    {
        proof {
            lemma_accounts_map_len(self.storage@);
        }
        if self.storage.len() == 0 {
            None
        } else {
            let i = crate::crypto::random_index(self.storage.len());
            proof {
                lemma_accounts_map_index(self.storage@, i as int);
            }
            Some(self.storage[i].0.clone())
        }
    }

    /// Whether an entry is stored for `username`.
    pub fn contains_username(&self, username: &String) -> (r: bool)
        ensures
            r == self@.accounts.contains_key(username@),
    {
        proof {
            lemma_accounts_map_contains(self.storage@, username@);
        }
        match Self::find_index(&self.storage, username) {
            Some(_) => true,
            None => false,
        }
    }

    /// How many accounts are stored.
    pub fn num_accounts(&self) -> (r: usize)
        requires
            self.wf(),
        ensures
            r == self@.accounts.dom().len(),
    {
        proof {
            lemma_accounts_map_len(self.storage@);
        }
        self.storage.len()
    }

    /// Renders the short fingerprint of the current master password: the
    /// first bytes of the key derived from it under the vault salt alone,
    /// as lowercase hexadecimal. A stable tag for the user to eyeball, not a
    /// cryptographic proof: distinct master passwords may share it.
    pub fn get_hashed_master_password(&self) -> (r: String)
        requires
            self.wf(),
        ensures
            r@ == fingerprint_chars(self@),
    {
        let key = crate::crypto::pbkdf2_derive(
            self.iterations,
            self.db_salt.as_slice(),
            self.master_password.as_str().as_bytes(),
        );
        crate::hex::to_hex_prefix(&key, crate::FINGERPRINT_LEN)
    }
}

/// Whether persisted parts can be accepted as a vault: a positive iteration
/// count, a vault salt of the fixed length, well-formed credentials and no
/// account listed twice.
pub open spec fn parts_valid(
    iterations: u32,
    db_salt: Seq<u8>,
    entries: Seq<(String, SaltedCredential)>,
) -> bool {
    &&& iterations > 0
    &&& db_salt.len() == crate::SALT_LEN
    &&& unique_keys(entries)
    &&& forall|i: int| 0 <= i < entries.len() ==> (#[trigger] entries[i]).1.wf()
}

impl PasswordDatabase {
    /// Rebuilds a vault from its persisted parts, with an empty master
    /// password. Parts that no run of this vault could have written are
    /// refused.
    pub fn from_parts(
        iterations: u32,
        db_salt: Vec<u8>,
        entries: Vec<(String, SaltedCredential)>,
    ) -> (r: Result<PasswordDatabase, Error>)
        ensures
            (match r {
                Ok(db) => {
                    &&& parts_valid(iterations, db_salt@, entries@)
                    &&& db.wf()
                    &&& db@.iterations == iterations
                    &&& db@.db_salt == db_salt@
                    &&& db@.master_password == Seq::<char>::empty()
                    &&& db@.accounts == accounts_map(entries@)
                    &&& db.entries_seq() == entries@
                },
                Err(e) => e == Error::InvalidConfig && !parts_valid(iterations, db_salt@, entries@),
            }),
    {
        if iterations == 0 || db_salt.len() != crate::SALT_LEN {
            return Err(Error::InvalidConfig);
        }
        let mut i: usize = 0;
        while i < entries.len()
            invariant
                i <= entries@.len(),
                forall|a: int| 0 <= a < i ==> (#[trigger] entries@[a]).1.wf(),
                forall|a: int, b: int|
                    0 <= a < b < i ==> (#[trigger] entries@[a]).0@ != (#[trigger] entries@[b]).0@,
            decreases entries@.len() - i,
        {
            if entries[i].1.credential.len() != crate::CREDENTIAL_LEN || entries[i].1.salt.len()
                != crate::SALT_LEN {
                return Err(Error::InvalidConfig);
            }
            let mut j: usize = 0;
            while j < i
                invariant
                    j <= i < entries@.len(),
                    forall|a: int| 0 <= a < j ==> (#[trigger] entries@[a]).0@ != entries@[i as int].0@,
                decreases i - j,
            {
                if entries[j].0 == entries[i].0 {
                    return Err(Error::InvalidConfig);
                }
                j += 1;
            }
            i += 1;
        }
        Ok(
            PasswordDatabase {
                iterations,
                db_salt,
                storage: entries,
                master_password: String::new(),
            },
        )
    }

    /// The stored entries, for persistence. The master password is not among
    /// them and never crosses this boundary.
    pub fn get_entries(&self) -> (r: &Vec<(String, SaltedCredential)>)
        ensures
            r@ == self.entries_seq(),
            accounts_map(r@) == self@.accounts,
    {
        &self.storage
    }

    /// The vault's iteration count.
    pub fn get_iterations(&self) -> (r: u32)
        ensures
            r == self@.iterations,
    {
        self.iterations
    }

    /// The vault-wide salt, fixed at creation.
    pub fn get_db_salt(&self) -> (r: &Vec<u8>)
        ensures
            r@ == self@.db_salt,
    {
        &self.db_salt
    }
}

/// Appends a byte slice to a byte vector.
fn extend_bytes(dst: &mut Vec<u8>, src: &[u8])
    ensures
        final(dst)@ == old(dst)@ + src@,
{
    let mut i: usize = 0;
    while i < src.len()
        invariant
            i <= src@.len(),
            dst@ == old(dst)@ + src@.take(i as int),
        decreases src@.len() - i,
    {
        dst.push(src[i]);
        proof {
            assert(old(dst)@ + src@.take(i as int + 1) =~= (old(dst)@ + src@.take(i as int)).push(
                src@[i as int],
            ));
        }
        i += 1;
    }
    proof {
        assert(src@.take(src@.len() as int) =~= src@);
    }
}

} // verus!
