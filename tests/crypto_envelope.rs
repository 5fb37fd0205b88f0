use syncclip::crypto::{decrypt, encrypt, is_sealed_field, open_field, seal_field, seal_with};

#[test]
fn round_trip_with_same_password() {
    let blob = encrypt(b"Hello E2EE World!", "mysecretpassword").unwrap();
    assert_eq!(blob.len(), 16 + 12 + 17 + 16);
    let plain = decrypt(&blob, "mysecretpassword").unwrap();
    assert_eq!(plain, b"Hello E2EE World!".to_vec());
}

#[test]
fn wrong_password_fails_authentication() {
    let blob = encrypt(b"Hello E2EE World!", "mysecretpassword").unwrap();
    let err = decrypt(&blob, "wrongpassword").unwrap_err();
    assert_eq!(err, "Decryption failure: aead::Error");
}

#[test]
fn corrupted_blob_fails_authentication() {
    let mut blob = encrypt(b"payload", "pw").unwrap();
    let last = blob.len() - 1;
    blob[last] ^= 1;
    assert!(decrypt(&blob, "pw").is_err());
}

#[test]
fn short_blob_is_rejected() {
    assert_eq!(decrypt(&[0u8; 27], "pw").unwrap_err(), "Data too short");
}

#[test]
fn empty_plaintext_round_trips() {
    let blob = encrypt(b"", "pw").unwrap();
    assert_eq!(blob.len(), 28 + 16);
    assert_eq!(decrypt(&blob, "pw").unwrap(), Vec::<u8>::new());
}

#[test]
fn fresh_salt_and_nonce_each_time() {
    let a = encrypt(b"same", "pw").unwrap();
    let b = encrypt(b"same", "pw").unwrap();
    assert_ne!(a, b);
}

#[test]
fn sealing_with_fixed_salt_and_nonce_is_deterministic() {
    let salt = [7u8; 16];
    let nonce = [9u8; 12];
    let a = seal_with(b"abc", "pw", &salt, &nonce).unwrap();
    let b = seal_with(b"abc", "pw", &salt, &nonce).unwrap();
    assert_eq!(a, b);
    assert_eq!(&a[..16], &salt[..]);
    assert_eq!(&a[16..28], &nonce[..]);
    assert_ne!(&a[28..31], b"abc");
    let c = seal_with(b"abc", "other", &salt, &nonce).unwrap();
    assert_ne!(a, c);
}

#[test]
fn sealed_field_round_trip() {
    let field = seal_field("Hello E2EE World!", "mysecretpassword").unwrap();
    assert!(field.starts_with("E2EE::"));
    assert!(!field.contains("Hello"));
    assert_eq!(open_field(&field, "mysecretpassword").unwrap(), "Hello E2EE World!");
}

#[test]
fn sealed_field_wrong_password_stays_closed() {
    let field = seal_field("secret", "right").unwrap();
    assert!(open_field(&field, "wrong").is_none());
}

#[test]
fn unicode_text_round_trips() {
    let field = seal_field("测试文件_🎉", "pw").unwrap();
    assert_eq!(open_field(&field, "pw").unwrap(), "测试文件_🎉");
}

#[test]
fn marker_detection() {
    assert!(is_sealed_field("E2EE::abc"));
    assert!(is_sealed_field("E2EE::"));
    assert!(!is_sealed_field("E2EE:"));
    assert!(!is_sealed_field("plain text"));
    assert!(!is_sealed_field(""));
}

#[test]
fn plain_or_malformed_fields_do_not_open() {
    assert!(open_field("plain", "pw").is_none());
    assert!(open_field("E2EE::not base64!", "pw").is_none());
    assert!(open_field("E2EE::AAAA", "pw").is_none());
}
