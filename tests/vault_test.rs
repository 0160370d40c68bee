use clipass::crypto::{derive_key, encrypt_data};
use clipass::error::ClipassError;
use clipass::header::{KdfParams, VaultHeader, HEADER_SIZE};
use clipass::vault::Vault;

fn light() -> KdfParams {
    KdfParams { memory_cost: 64, time_cost: 1, parallelism: 1 }
}

fn light_vault(password: &str, now: u64) -> Vault {
    Vault::new(password, light(), vec![42u8; 32], now).expect("valid costs")
}

#[test]
fn vault_encrypt_decrypt_roundtrip() -> Result<(), ClipassError> {
    let mut vault = Vault::new_empty("test-pass", 1_700_000_000)?;
    vault.new_entry("email", "poney@gmail.com")?;
    let file = vault.crypt_to_bytes(1_700_000_100)?;

    let loaded = Vault::load_from_bytes("test-pass", &file)?;
    let value = loaded.get_value("email")?;
    assert_eq!(value, "poney@gmail.com");
    Ok(())
}

#[test]
fn vault_wrong_password_fails() -> Result<(), ClipassError> {
    let mut vault = Vault::new_empty("correct-password", 1_700_000_000)?;
    vault.new_entry("key", "secret")?;

    let file = vault.crypt_to_bytes(1_700_000_100)?;

    // Attempt to load with wrong password — expect an Err (CryptoError)
    let res = Vault::load_from_bytes("wrong-password", &file);
    assert!(res.is_err());
    match res {
        Err(e) => match e {
            ClipassError::CryptoError(_) => {}
            _ => panic!("expected CryptoError on wrong password, got {:?}", e),
        },
        Ok(_) => panic!("expected error for wrong password"),
    }
    Ok(())
}

#[test]
fn new_entry_duplicate_returns_error() -> Result<(), ClipassError> {
    let mut vault = Vault::new_empty("test-pass", 1_700_000_000)?;
    vault.new_entry("dup", "one").expect("first insert ok");
    let second = vault.new_entry("dup", "two");
    assert!(second.is_err());
    match second {
        Err(clipass::error::ClipassError::IdExists(id)) => {
            assert_eq!(id, "dup");
            Ok(())
        }
        Err(e) => panic!("expected IdExists, got {:?}", e),
        Ok(_) => panic!("expected error"),
    }
}

#[test]
fn new_empty_uses_default_costs_and_fresh_salt() {
    let v = Vault::new_empty("pw", 5).unwrap();
    assert_eq!(v.kdf_params(), KdfParams { memory_cost: 65536, time_cost: 3, parallelism: 4 });
    assert_eq!(v.created_at(), 5);
    assert_eq!(v.modified_at(), 5);
    assert!(!v.is_updated());
    assert!(v.list_ids().is_empty());
}

#[test]
fn round_trip_keeps_entries_and_created_at() {
    let mut v = light_vault("pw", 1000);
    v.new_entry("email", "a@b.com").unwrap();
    v.new_entry("pin", "1234").unwrap();
    v.new_entry("", "empty id").unwrap();
    v.new_entry("unicode ✓", "välue \"quoted\"\n").unwrap();
    let file = v.crypt_to_bytes(2000).unwrap();
    let loaded = Vault::load_from_bytes("pw", &file).unwrap();
    assert_eq!(loaded.created_at(), 1000);
    assert_eq!(loaded.modified_at(), 2000);
    assert_eq!(loaded.kdf_params(), light());
    assert!(!loaded.is_updated());
    let mut ids = loaded.list_ids();
    ids.sort();
    assert_eq!(ids, vec!["", "email", "pin", "unicode ✓"]);
    assert_eq!(loaded.get_value("email").unwrap(), "a@b.com");
    assert_eq!(loaded.get_value("pin").unwrap(), "1234");
    assert_eq!(loaded.get_value("").unwrap(), "empty id");
    assert_eq!(loaded.get_value("unicode ✓").unwrap(), "välue \"quoted\"\n");
}

#[test]
fn round_trip_of_an_empty_vault() {
    let mut v = light_vault("pw", 10);
    let file = v.crypt_to_bytes(20).unwrap();
    let loaded = Vault::load_from_bytes("pw", &file).unwrap();
    assert!(loaded.list_ids().is_empty());
    assert_eq!(loaded.modified_at(), 10);
}

#[test]
fn file_layout_with_a_given_nonce() {
    let mut v = light_vault("pw", 1000);
    v.new_entry("a", "b").unwrap();
    let nonce = vec![9u8; 12];
    let file = v.crypt_to_bytes_with_nonce(3000, &nonce).unwrap();
    let header = VaultHeader::deserialize(&file).unwrap();
    assert_eq!(header.created_at, 1000);
    assert_eq!(header.modified_at, 3000);
    assert_eq!(header.salt, vec![42u8; 32]);
    assert_eq!(header.nonce, nonce);
    // the ciphertext is the entries' JSON, 9 bytes, and a 16-byte tag
    assert_eq!(file.len(), HEADER_SIZE + r#"{"a":"b"}"#.len() + 16);
    let key = derive_key("pw", &vec![42u8; 32], light()).unwrap();
    let expected = encrypt_data(&key, &nonce, &br#"{"a":"b"}"#.to_vec(), &file[..HEADER_SIZE].to_vec()).unwrap();
    assert_eq!(&file[HEADER_SIZE..], &expected[..]);
}

#[test]
fn tampering_is_detected() {
    let mut v = light_vault("pw", 1000);
    v.new_entry("email", "a@b.com").unwrap();
    let file = v.crypt_to_bytes(2000).unwrap();
    // timestamps, costs, salt, nonce, and every byte of the ciphertext
    let mut positions: Vec<usize> = vec![8, 15, 16, 23, 24, 28, 32, 36, 67, 68, 79];
    positions.extend(HEADER_SIZE..file.len());
    for i in positions {
        let mut bad = file.clone();
        bad[i] ^= 0x01;
        match Vault::load_from_bytes("pw", &bad) {
            Err(ClipassError::CryptoError(_)) => {}
            Err(e) => panic!("byte {i}: expected CryptoError, got {:?}", e),
            Ok(_) => panic!("byte {i}: tampered file loaded"),
        }
    }
}

#[test]
fn wrong_password_never_loads() {
    let mut v = light_vault("hunter2", 1);
    v.new_entry("k", "v").unwrap();
    let file = v.crypt_to_bytes(2).unwrap();
    for pw in ["", "hunter", "hunter22", "Hunter2", "hunter2 "] {
        assert!(matches!(Vault::load_from_bytes(pw, &file), Err(ClipassError::CryptoError(_))));
    }
}

#[test]
fn saving_without_change_keeps_modified_at() {
    let mut v = light_vault("pw", 100);
    v.new_entry("k", "v").unwrap();
    let first = v.crypt_to_bytes(200).unwrap();
    assert_eq!(v.modified_at(), 200);
    assert!(!v.is_updated());
    let second = v.crypt_to_bytes(300).unwrap();
    assert_eq!(v.modified_at(), 200);
    assert_eq!(VaultHeader::deserialize(&first).unwrap().modified_at, 200);
    assert_eq!(VaultHeader::deserialize(&second).unwrap().modified_at, 200);
    // a fresh nonce for every save
    assert_ne!(first, second);
    let loaded = Vault::load_from_bytes("pw", &second).unwrap();
    assert_eq!(loaded.modified_at(), 200);
}

#[test]
fn saving_after_a_change_advances_modified_at() {
    let mut v = light_vault("pw", 100);
    v.crypt_to_bytes(150).unwrap();
    assert_eq!(v.modified_at(), 100);
    v.new_entry("k", "v").unwrap();
    v.crypt_to_bytes(200).unwrap();
    assert_eq!(v.modified_at(), 200);
    v.update("k", "w").unwrap();
    v.crypt_to_bytes(300).unwrap();
    assert_eq!(v.modified_at(), 300);
    v.delete_entry("k").unwrap();
    assert!(v.is_updated());
    v.crypt_to_bytes(400).unwrap();
    assert_eq!(v.modified_at(), 400);
}

#[test]
fn duplicate_id_keeps_first_value() {
    let mut v = light_vault("pw", 1);
    v.new_entry("k", "v1").unwrap();
    match v.new_entry("k", "v2") {
        Err(ClipassError::IdExists(id)) => assert_eq!(id, "k"),
        other => panic!("expected IdExists, got {:?}", other),
    }
    assert_eq!(v.get_value("k").unwrap(), "v1");
    assert_eq!(v.list_ids(), vec!["k".to_string()]);
}

#[test]
fn short_file_is_an_io_error() {
    let mut v = light_vault("pw", 1);
    let file = v.crypt_to_bytes(2).unwrap();
    for n in [0, 1, 4, 44, HEADER_SIZE - 1] {
        let short = file[..n].to_vec();
        assert!(matches!(Vault::load_from_bytes("pw", &short), Err(ClipassError::Io(_))));
    }
    // garbage of the same length fails on the header instead
    assert!(matches!(Vault::load_from_bytes("pw", &vec![0u8; HEADER_SIZE]), Err(ClipassError::HeaderError(_))));
}

#[test]
fn header_errors_on_load() {
    let mut v = light_vault("pw", 1);
    let file = v.crypt_to_bytes(2).unwrap();
    let mut bad_magic = file.clone();
    bad_magic[1] = 0;
    assert!(matches!(Vault::load_from_bytes("pw", &bad_magic), Err(ClipassError::HeaderError(_))));
    let mut old_version = file.clone();
    old_version[4] = 2;
    assert!(matches!(Vault::load_from_bytes("pw", &old_version), Err(ClipassError::HeaderError(_))));
}

#[test]
fn invalid_costs_in_header_are_a_crypto_error() {
    let header = VaultHeader::new(
        vec![1u8; 32],
        vec![2u8; 12],
        1,
        1,
        KdfParams { memory_cost: 64, time_cost: 0, parallelism: 1 },
    );
    let mut file = header.serialize();
    file.extend_from_slice(&[0u8; 20]);
    assert!(matches!(Vault::load_from_bytes("pw", &file), Err(ClipassError::CryptoError(_))));
}

#[test]
fn undecodable_payload_is_a_serde_error() {
    let salt = vec![1u8; 32];
    let nonce = vec![2u8; 12];
    let header = VaultHeader::new(salt.clone(), nonce.clone(), 1, 1, light());
    let header_bytes = header.serialize();
    let key = derive_key("pw", &salt, light()).unwrap();
    let ct = encrypt_data(&key, &nonce, &b"not json".to_vec(), &header_bytes).unwrap();
    let mut file = header_bytes.clone();
    file.extend_from_slice(&ct);
    assert!(matches!(Vault::load_from_bytes("pw", &file), Err(ClipassError::SerdeError(_))));
}

#[test]
fn invalid_costs_on_create() {
    let bad = KdfParams { memory_cost: 7, time_cost: 1, parallelism: 1 };
    assert!(matches!(Vault::new("pw", bad, vec![0u8; 32], 1), Err(ClipassError::CryptoError(_))));
}

#[test]
fn entry_operations() {
    let mut v = light_vault("pw", 1);
    assert!(!v.contains_key("a"));
    assert!(matches!(v.get_value("a"), Err(ClipassError::NotFound(id)) if id == "a"));
    assert!(matches!(v.update("a", "x"), Err(ClipassError::NotFound(id)) if id == "a"));
    assert!(matches!(v.delete_entry("a"), Err(ClipassError::NotFound(id)) if id == "a"));
    assert!(!v.is_updated());
    v.new_entry("a", "1").unwrap();
    v.new_entry("b", "2").unwrap();
    v.new_entry("A", "3").unwrap();
    assert!(v.is_updated());
    assert!(v.contains_key("a") && v.contains_key("A"));
    v.update("a", "10").unwrap();
    assert_eq!(v.get_value("a").unwrap(), "10");
    assert_eq!(v.get_value("A").unwrap(), "3");
    v.delete_entry("b").unwrap();
    assert!(!v.contains_key("b"));
    let mut ids = v.list_ids();
    ids.sort();
    assert_eq!(ids, vec!["A", "a"]);
    let mut all = v.get_all().clone();
    all.sort();
    assert_eq!(all, vec![("A".to_string(), "3".to_string()), ("a".to_string(), "10".to_string())]);
}

#[test]
fn scenario_hunter2() {
    let mut v = light_vault("hunter2", 1);
    v.new_entry("email", "a@b.com").unwrap();
    let file = v.crypt_to_bytes(2).unwrap();
    let reopened = Vault::load_from_bytes("hunter2", &file).unwrap();
    assert_eq!(reopened.get_value("email").unwrap(), "a@b.com");
    assert!(matches!(Vault::load_from_bytes("wrong", &file), Err(ClipassError::CryptoError(_))));
}
