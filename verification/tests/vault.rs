use password_vault::password_database::{Error, PasswordDatabase, SaltedCredential};
use password_vault::{CREDENTIAL_LEN, FINGERPRINT_LEN, SALT_LEN};

fn bound_vault(master: &str) -> PasswordDatabase {
    let mut db = PasswordDatabase::new(10_000).unwrap();
    db.set_master_password(master.to_string());
    db
}

#[test]
fn store_then_verify_succeeds() {
    let mut db = bound_vault("master");
    db.store_password("alice", "correct-horse");
    assert!(db.verify_password("alice", "correct-horse").is_ok());
}

#[test]
fn verify_with_other_password_fails() {
    let mut db = bound_vault("master");
    db.store_password("alice", "first-password");
    let r = db.verify_password("alice", "second-password");
    assert!(matches!(r, Err(Error::WrongPassword)));
}

#[test]
fn changed_master_password_makes_verification_fail() {
    let mut db = bound_vault("master-one");
    db.store_password("alice", "stable-password");
    assert!(db.verify_password("alice", "stable-password").is_ok());
    db.set_master_password("master-two".to_string());
    let r = db.verify_password("alice", "stable-password");
    assert!(matches!(r, Err(Error::WrongPassword)));
}

#[test]
fn remove_makes_account_unknown() {
    let mut db = bound_vault("master");
    db.store_password("alice", "pw");
    db.remove_password("alice");
    let r = db.verify_password("alice", "pw");
    assert!(matches!(r, Err(Error::AccountDoesNotExist)));
}

#[test]
fn remove_absent_account_is_a_noop() {
    let mut db = bound_vault("master");
    db.store_password("alice", "pw");
    db.remove_password("nobody");
    assert_eq!(db.num_accounts(), 1);
    assert!(db.verify_password("alice", "pw").is_ok());
}

#[test]
fn restoring_same_password_draws_fresh_salt_and_key() {
    let mut db = bound_vault("master");
    db.store_password("alice", "same-password");
    let (salt1, key1) = {
        let e = &db.get_entries()[0].1;
        (e.salt.clone(), e.credential.clone())
    };
    db.store_password("alice", "same-password");
    let (salt2, key2) = {
        let e = &db.get_entries()[0].1;
        (e.salt.clone(), e.credential.clone())
    };
    assert_eq!(db.num_accounts(), 1);
    assert_ne!(salt1, salt2);
    assert_ne!(key1, key2);
}

#[test]
fn stored_credential_is_not_the_raw_password() {
    let mut db = bound_vault("master");
    db.store_password("alice", "pw");
    let e = &db.get_entries()[0].1;
    assert_eq!(e.credential.len(), CREDENTIAL_LEN);
    assert_eq!(e.salt.len(), SALT_LEN);
    assert_ne!(e.credential.as_slice(), "pw".as_bytes());
}

#[test]
fn fingerprint_is_deterministic_for_fixed_triple() {
    let mut db = bound_vault("master");
    db.store_password("alice", "pw");
    let salt = db.get_db_salt().clone();
    let entries: Vec<(String, SaltedCredential)> = Vec::new();
    let mut rebuilt = PasswordDatabase::from_parts(db.get_iterations(), salt, entries).unwrap();
    rebuilt.set_master_password("master".to_string());
    assert_eq!(db.get_hashed_master_password(), rebuilt.get_hashed_master_password());
}

#[test]
fn fingerprint_changes_with_master_password() {
    let mut db = bound_vault("master-one");
    let first = db.get_hashed_master_password();
    db.set_master_password("master-two".to_string());
    let second = db.get_hashed_master_password();
    assert_ne!(first, second);
}

#[test]
fn fingerprint_is_short_lowercase_hex() {
    let db = bound_vault("master");
    let tag = db.get_hashed_master_password();
    assert_eq!(tag.len(), 2 * FINGERPRINT_LEN);
    assert!(tag.chars().all(|c| c.is_ascii_hexdigit() && !c.is_ascii_uppercase()));
}

#[test]
fn concrete_scenario() {
    let mut db = PasswordDatabase::new(10_000).unwrap();
    db.set_master_password("master".to_string());
    db.store_password("alice", "correct-horse");
    assert!(db.verify_password("alice", "correct-horse").is_ok());
    assert!(matches!(db.verify_password("alice", "wrong"), Err(Error::WrongPassword)));
    assert!(matches!(db.verify_password("bob", "x"), Err(Error::AccountDoesNotExist)));
}

#[test]
fn random_username_on_empty_vault_is_none() {
    let db = bound_vault("master");
    assert!(db.get_random_username().is_none());
}

#[test]
fn random_username_covers_all_accounts() {
    let mut db = bound_vault("master");
    db.store_password("alice", "a");
    db.store_password("bob", "b");
    db.store_password("carol", "c");
    let mut seen_alice = false;
    let mut seen_bob = false;
    let mut seen_carol = false;
    for _ in 0..300 {
        let name = db.get_random_username().unwrap();
        assert!(db.contains_username(&name));
        match name.as_str() {
            "alice" => seen_alice = true,
            "bob" => seen_bob = true,
            "carol" => seen_carol = true,
            other => panic!("unexpected account {}", other),
        }
    }
    assert!(seen_alice && seen_bob && seen_carol);
}

#[test]
fn zero_iterations_is_invalid_config() {
    let r = PasswordDatabase::new(0);
    assert!(matches!(r, Err(Error::InvalidConfig)));
}

#[test]
fn contains_and_count_follow_store_and_remove() {
    let mut db = bound_vault("master");
    assert_eq!(db.num_accounts(), 0);
    assert!(!db.contains_username(&"alice".to_string()));
    db.store_password("alice", "a");
    db.store_password("bob", "b");
    assert_eq!(db.num_accounts(), 2);
    assert!(db.contains_username(&"alice".to_string()));
    assert!(db.contains_username(&"bob".to_string()));
    db.remove_password("alice");
    assert_eq!(db.num_accounts(), 1);
    assert!(!db.contains_username(&"alice".to_string()));
}

#[test]
fn overwriting_stores_the_new_password() {
    let mut db = bound_vault("master");
    db.store_password("alice", "old-password");
    db.store_password("alice", "new-password");
    assert_eq!(db.num_accounts(), 1);
    assert!(db.verify_password("alice", "new-password").is_ok());
    assert!(matches!(db.verify_password("alice", "old-password"), Err(Error::WrongPassword)));
}

#[test]
fn rebuilt_vault_still_verifies() {
    let mut db = bound_vault("master");
    db.store_password("alice", "pw-one");
    db.store_password("bob", "pw-two");
    let iterations = db.get_iterations();
    let salt = db.get_db_salt().clone();
    let entries: Vec<(String, SaltedCredential)> = db
        .get_entries()
        .iter()
        .map(|(name, cred)| {
            (
                name.clone(),
                SaltedCredential { credential: cred.credential.clone(), salt: cred.salt.clone() },
            )
        })
        .collect();
    let mut rebuilt = PasswordDatabase::from_parts(iterations, salt, entries).unwrap();
    rebuilt.set_master_password("master".to_string());
    assert_eq!(rebuilt.num_accounts(), 2);
    assert!(rebuilt.verify_password("alice", "pw-one").is_ok());
    assert!(rebuilt.verify_password("bob", "pw-two").is_ok());
    assert!(matches!(rebuilt.verify_password("alice", "pw-two"), Err(Error::WrongPassword)));
}

#[test]
fn from_parts_refuses_bad_parts() {
    let short_salt = vec![0u8; SALT_LEN - 1];
    assert!(matches!(
        PasswordDatabase::from_parts(10_000, short_salt, Vec::new()),
        Err(Error::InvalidConfig)
    ));
    let salt = vec![0u8; SALT_LEN];
    assert!(matches!(
        PasswordDatabase::from_parts(0, salt.clone(), Vec::new()),
        Err(Error::InvalidConfig)
    ));
    let dup = vec![
        (
            "alice".to_string(),
            SaltedCredential { credential: vec![0u8; CREDENTIAL_LEN], salt: vec![0u8; SALT_LEN] },
        ),
        (
            "alice".to_string(),
            SaltedCredential { credential: vec![1u8; CREDENTIAL_LEN], salt: vec![1u8; SALT_LEN] },
        ),
    ];
    assert!(matches!(
        PasswordDatabase::from_parts(10_000, salt.clone(), dup),
        Err(Error::InvalidConfig)
    ));
    let bad_cred = vec![(
        "alice".to_string(),
        SaltedCredential { credential: vec![0u8; 3], salt: vec![0u8; SALT_LEN] },
    )];
    assert!(matches!(
        PasswordDatabase::from_parts(10_000, salt, bad_cred),
        Err(Error::InvalidConfig)
    ));
}

#[test]
fn two_vault_salts_differ() {
    let a = PasswordDatabase::new(10_000).unwrap();
    let b = PasswordDatabase::new(10_000).unwrap();
    assert_eq!(a.get_db_salt().len(), SALT_LEN);
    assert_ne!(a.get_db_salt(), b.get_db_salt());
}

#[test]
fn hex_prefix_renders_exact_digits() {
    let bytes = vec![0x00u8, 0xab, 0xff, 0x12];
    assert_eq!(password_vault::hex::to_hex_prefix(&bytes, 3), "00abff");
    assert_eq!(password_vault::hex::to_hex_prefix(&bytes, 4), "00abff12");
    assert_eq!(password_vault::hex::to_hex_prefix(&bytes, 0), "");
}

#[test]
fn empty_strings_are_allowed_everywhere() {
    let mut db = bound_vault("");
    db.store_password("", "");
    assert!(db.verify_password("", "").is_ok());
    assert!(matches!(db.verify_password("", "x"), Err(Error::WrongPassword)));
}
