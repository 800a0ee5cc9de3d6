use syncrodb::credentials::{generate_encryption_key, validate_encryption_key, CredentialManager};

fn manager() -> CredentialManager {
    CredentialManager::new_with_key(generate_encryption_key().unwrap())
}

#[test]
fn encryption_round_trip() {
    let manager = manager();
    for password in ["testpass123", "p@ss w0rd!~", "", "pässwörd ✓"] {
        let encrypted = manager.encrypt_password(password).unwrap();
        assert_ne!(encrypted.as_slice(), password.as_bytes());
        assert_eq!(encrypted.len(), 12 + password.len() + 16);
        assert_eq!(manager.decrypt_password(&encrypted).unwrap(), password);
    }
}

#[test]
fn each_encryption_draws_a_fresh_nonce() {
    let manager = manager();
    let first = manager.encrypt_password("securepass").unwrap();
    let second = manager.encrypt_password("securepass").unwrap();
    assert_ne!(first, second);
    assert_eq!(manager.decrypt_password(&first).unwrap(), "securepass");
    assert_eq!(manager.decrypt_password(&second).unwrap(), "securepass");
}

#[test]
fn a_given_nonce_is_stored_in_front() {
    let manager = manager();
    let nonce = [7u8; 12];
    let a = manager.encrypt_with_nonce("secret", &nonce).unwrap();
    let b = manager.encrypt_with_nonce("secret", &nonce).unwrap();
    assert_eq!(a, b);
    assert_eq!(&a[..12], &nonce[..]);
    assert_eq!(manager.decrypt_password(&a).unwrap(), "secret");
}

#[test]
fn another_key_cannot_decrypt() {
    let encrypted = manager().encrypt_password("secret").unwrap();
    let err = manager().decrypt_password(&encrypted).unwrap_err();
    assert_eq!(err.message(), "Encryption error: Failed to decrypt password");
}

#[test]
fn tampered_data_is_refused() {
    let manager = manager();
    let mut encrypted = manager.encrypt_password("secret").unwrap();
    let last = encrypted.len() - 1;
    encrypted[last] ^= 1;
    assert_eq!(
        manager.decrypt_password(&encrypted).unwrap_err().message(),
        "Encryption error: Failed to decrypt password"
    );
}

#[test]
fn short_data_is_refused() {
    let err = manager().decrypt_password(&[1, 2, 3]).unwrap_err();
    assert_eq!(err.message(), "Encryption error: Invalid encrypted data");
}

#[test]
fn keys_of_the_wrong_length_are_refused() {
    let manager = CredentialManager::new_with_key(vec![0u8; 16]);
    assert_eq!(
        manager.encrypt_password("x").unwrap_err().message(),
        "Encryption error: Failed to create encryption key"
    );
    assert_eq!(
        manager.decrypt_password(&[0u8; 40]).unwrap_err().message(),
        "Encryption error: Failed to create decryption key"
    );
    assert_eq!(
        validate_encryption_key(vec![1u8; 31]).unwrap_err().message(),
        "Encryption error: Invalid encryption key length"
    );
    assert_eq!(validate_encryption_key(vec![1u8; 32]).unwrap(), vec![1u8; 32]);
}

#[test]
fn generated_keys_are_random() {
    let a = generate_encryption_key().unwrap();
    let b = generate_encryption_key().unwrap();
    assert_eq!(a.len(), 32);
    assert_ne!(a, b);
}
