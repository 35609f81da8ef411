use nefu::safe_storage::{derive_key, EncryptedData, SafeStorage, SafeStorageError};

fn storage() -> SafeStorage {
    SafeStorage::new("/tmp/nefu_test".to_string(), Some(vec![42u8; 32]))
}

#[test]
fn test_encrypt_decrypt_roundtrip() {
    let storage = storage();
    if !storage.is_encryption_available() {
        return;
    }
    let original = "Hello, Nefu Safe Storage!";
    let encrypted = storage.encrypt_string(original).unwrap();
    let decrypted = storage.decrypt_string(&encrypted).unwrap();
    assert_eq!(original, decrypted);
}

#[test]
fn test_encrypted_data_structure() {
    let storage = storage();
    if !storage.is_encryption_available() {
        return;
    }
    let data = storage.encrypt_string("test").unwrap();
    assert_eq!(data.algorithm, "AES-256-GCM");
    assert!(!data.iv.is_empty());
    assert!(!data.data.is_empty());
    assert!(!data.tag.is_empty());
    assert!(!data.salt.is_empty());
}

#[test]
fn test_different_encryptions_produce_different_output() {
    let storage = storage();
    if !storage.is_encryption_available() {
        return;
    }
    let data1 = storage.encrypt_string("same text").unwrap();
    let data2 = storage.encrypt_string("same text").unwrap();
    assert_ne!(data1.data, data2.data);
    assert_ne!(data1.iv, data2.iv);
}

#[test]
fn test_is_encryption_available() {
    let _ = storage().is_encryption_available();
}

// ---- further cases ----

#[test]
fn no_key_refuses() {
    let s = SafeStorage::new("/tmp/x".to_string(), None);
    assert!(!s.is_encryption_available());
    assert!(matches!(s.encrypt_string("a"), Err(SafeStorageError::KeyUnavailable)));
}

#[test]
fn fixed_salt_and_nonce_are_deterministic() {
    let s = storage();
    let a = s.encrypt_with("abc", &[1u8; 32], &[2u8; 12]).unwrap();
    let b = s.encrypt_with("abc", &[1u8; 32], &[2u8; 12]).unwrap();
    assert_eq!(a.data, b.data);
    assert_eq!(a.tag, b.tag);
    assert_eq!(a.iv, "020202020202020202020202");
    assert_eq!(s.decrypt_string(&a).unwrap(), "abc");
}

#[test]
fn tampered_tag_fails() {
    let s = storage();
    let mut a = s.encrypt_with("abc", &[1u8; 32], &[2u8; 12]).unwrap();
    let flipped = if a.tag.starts_with('0') { "1" } else { "0" };
    a.tag.replace_range(0..1, flipped);
    assert!(matches!(s.decrypt_string(&a), Err(SafeStorageError::DecryptionFailed)));
}

#[test]
fn bad_hex_fields_are_named() {
    let s = storage();
    let mut a = s.encrypt_with("abc", &[1u8; 32], &[2u8; 12]).unwrap();
    a.salt = "zz".to_string();
    assert!(matches!(s.decrypt_string(&a), Err(SafeStorageError::InvalidSalt)));
}

#[test]
fn derived_key_is_32_bytes_and_depends_on_salt() {
    let a = derive_key(b"pw", b"salt1");
    let b = derive_key(b"pw", b"salt2");
    assert_eq!(a.len(), 32);
    assert_ne!(a, b);
    assert_eq!(a, derive_key(b"pw", b"salt1"));
}

#[test]
fn short_nonce_is_refused() {
    let s = storage();
    assert!(s.is_encryption_available());
    let e = EncryptedData {
        algorithm: "AES-256-GCM".into(),
        iv: "00".into(),
        data: String::new(),
        tag: String::new(),
        salt: String::new(),
    };
    assert!(matches!(s.decrypt_string(&e), Err(SafeStorageError::InvalidIv)));
}

#[test]
fn encrypted_parts_have_fixed_hex_lengths() {
    let s = storage();
    let e = s.encrypt_string("Hello, Nefu Safe Storage!").unwrap();
    assert_eq!(e.algorithm, "AES-256-GCM");
    assert_eq!(e.iv.len(), 24);
    assert_eq!(e.tag.len(), 32);
    assert_eq!(e.salt.len(), 64);
    assert_eq!(s.decrypt_string(&e).unwrap(), "Hello, Nefu Safe Storage!");
}

#[test]
fn uppercase_hex_parts_decode_too() {
    let s = storage();
    let mut a = s.encrypt_with("abc", &[171u8; 32], &[205u8; 12]).unwrap();
    assert_eq!(a.iv, "cdcdcdcdcdcdcdcdcdcdcdcd");
    a.iv = a.iv.to_uppercase();
    a.tag = a.tag.to_uppercase();
    a.salt = a.salt.to_uppercase();
    assert_eq!(s.decrypt_string(&a).unwrap(), "abc");
    a.iv.push('0');
    assert!(matches!(s.decrypt_string(&a), Err(SafeStorageError::InvalidIv)));
}
