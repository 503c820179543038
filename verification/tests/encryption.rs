use base64::engine::general_purpose::STANDARD as BASE64;
use base64::Engine as _;
use sql_plan_bridge::encryption::{
    decrypt_password, decrypt_with, derive_key, derive_key_for, encrypt_password, encrypt_with,
    CryptoError,
};

fn key_of_alice() -> [u8; 32] {
    derive_key_for("db-host", "alice")
}

fn counting_nonce() -> [u8; 12] {
    [0, 1, 2, 3, 4, 5, 6, 7, 8, 9, 10, 11]
}

#[test]
fn test_encrypt_decrypt_roundtrip() {
    let original = "MySecretPassword123!";

    let encrypted = encrypt_password(original).expect("Encryption should succeed");

    // Encrypted should be different from original
    assert_ne!(encrypted, original);

    // Encrypted should be base64 (no panic on decode)
    assert!(BASE64.decode(&encrypted).is_ok());

    let decrypted = decrypt_password(&encrypted).expect("Decryption should succeed");

    assert_eq!(decrypted, original);
}

#[test]
fn test_encrypt_produces_different_ciphertext() {
    let password = "SamePassword";

    let encrypted1 = encrypt_password(password).unwrap();
    let encrypted2 = encrypt_password(password).unwrap();

    // Different nonces should produce different ciphertext
    assert_ne!(encrypted1, encrypted2);

    // But both should decrypt to the same value
    assert_eq!(decrypt_password(&encrypted1).unwrap(), password);
    assert_eq!(decrypt_password(&encrypted2).unwrap(), password);
}

#[test]
fn test_decrypt_invalid_base64() {
    let result = decrypt_password("not-valid-base64!@#");
    assert!(result.is_err());
}

#[test]
fn test_decrypt_too_short() {
    // Valid base64 but too short (< 12 bytes)
    let short_data = BASE64.encode(&[1, 2, 3]);
    let result = decrypt_password(&short_data);
    assert!(result.is_err());
    assert!(result.unwrap_err().contains("Invalid encrypted data"));
}

#[test]
fn test_decrypt_tampered_data() {
    let original = "MyPassword";
    let mut encrypted = encrypt_password(original).unwrap();

    // Tamper with the encrypted data by adding characters
    encrypted.push('X');

    let result = decrypt_password(&encrypted);
    assert!(result.is_err());
}

#[test]
fn test_empty_password() {
    let empty = "";
    let encrypted = encrypt_password(empty).unwrap();
    let decrypted = decrypt_password(&encrypted).unwrap();
    assert_eq!(decrypted, empty);
}

#[test]
fn test_unicode_password() {
    let unicode = "パスワード🔐";
    let encrypted = encrypt_password(unicode).unwrap();
    let decrypted = decrypt_password(&encrypted).unwrap();
    assert_eq!(decrypted, unicode);
}

#[test]
fn test_very_long_password() {
    let long_password = "a".repeat(1000);
    let encrypted = encrypt_password(&long_password).unwrap();
    let decrypted = decrypt_password(&encrypted).unwrap();
    assert_eq!(decrypted, long_password);
}

#[test]
fn test_derive_key_consistency() {
    // Key derivation should be deterministic
    let key1 = derive_key();
    let key2 = derive_key();
    assert_eq!(key1, key2);
    assert_eq!(key1.len(), 32); // AES-256 requires 32 bytes
}

#[test]
fn test_special_characters() {
    let special = "p@ssw0rd!#$%^&*(){}[]|\\:;\"'<>,.?/~`";
    let encrypted = encrypt_password(special).unwrap();
    let decrypted = decrypt_password(&encrypted).unwrap();
    assert_eq!(decrypted, special);
}

#[test]
fn key_is_the_digest_of_the_material() {
    let expected: [u8; 32] = [
        0xe0, 0x28, 0x24, 0x0c, 0x1d, 0x23, 0x39, 0xf8, 0x5f, 0x5e, 0xb3, 0x7a, 0x35, 0x1b, 0x39,
        0x09, 0xe5, 0x58, 0x0c, 0x9b, 0x5f, 0xb6, 0xcf, 0x8e, 0x42, 0xbb, 0x4d, 0xc9, 0xea, 0xe4,
        0x72, 0x7d,
    ];
    assert_eq!(key_of_alice(), expected);
}

#[test]
fn key_depends_on_machine_and_account() {
    assert_ne!(derive_key_for("db-host", "alice"), derive_key_for("db-host", "bob"));
    assert_ne!(derive_key_for("db-host", "alice"), derive_key_for("other", "alice"));
}

#[test]
fn blob_for_a_given_nonce_is_fixed() {
    let blob = encrypt_with(&key_of_alice(), &counting_nonce(), "s3cret").ok().unwrap();
    assert_eq!(blob, "AAECAwQFBgcICQoLVri9+zzgylY5oczKCACfd8YarQQJ5g==");
}

#[test]
fn blob_of_the_empty_password_is_nonce_and_tag() {
    let blob = encrypt_with(&key_of_alice(), &counting_nonce(), "").ok().unwrap();
    assert_eq!(blob, "AAECAwQFBgcICQoLQg3Wy9v9KgOny86nM21kMw==");
    assert_eq!(BASE64.decode(&blob).unwrap().len(), 28);
}

#[test]
fn blob_carries_its_nonce_in_front() {
    let nonce = [9u8, 8, 7, 6, 5, 4, 3, 2, 1, 0, 255, 254];
    let blob = encrypt_with(&key_of_alice(), &nonce, "password").ok().unwrap();
    let bytes = BASE64.decode(&blob).unwrap();
    assert_eq!(&bytes[..12], &nonce[..]);
    assert_eq!(bytes.len(), 12 + 8 + 16);
    assert_ne!(&bytes[12..20], "password".as_bytes());
}

#[test]
fn different_nonces_give_different_blobs() {
    let key = key_of_alice();
    let first = encrypt_with(&key, &[0u8; 12], "same").ok().unwrap();
    let second = encrypt_with(&key, &[1u8; 12], "same").ok().unwrap();
    assert_ne!(first, second);
    assert_eq!(decrypt_with(&key, &first).ok().unwrap(), "same");
    assert_eq!(decrypt_with(&key, &second).ok().unwrap(), "same");
}

#[test]
fn decrypt_with_gives_the_password_back() {
    let key = key_of_alice();
    for password in ["", "x", "MySecretPassword123!", "パスワード🔐", "line\nbreak\ttab"] {
        let blob = encrypt_with(&key, &counting_nonce(), password).ok().unwrap();
        let back = decrypt_with(&key, &blob);
        assert!(matches!(back, Ok(ref s) if s == password));
    }
}

#[test]
fn decrypt_under_another_key_fails_authentication() {
    let blob = encrypt_with(&key_of_alice(), &counting_nonce(), "s3cret").ok().unwrap();
    let other = derive_key_for("db-host", "bob");
    let result = decrypt_with(&other, &blob);
    assert!(matches!(result, Err(CryptoError::Authentication(_))));
    let message = result.err().unwrap().message();
    assert_eq!(message, "aead::Error");
}

#[test]
fn decrypt_of_a_changed_byte_fails_authentication() {
    let key = key_of_alice();
    let blob = encrypt_with(&key, &counting_nonce(), "s3cret").ok().unwrap();
    let mut bytes = BASE64.decode(&blob).unwrap();
    bytes[14] ^= 0x01;
    let tampered = BASE64.encode(&bytes);
    assert!(matches!(decrypt_with(&key, &tampered), Err(CryptoError::Authentication(_))));
    let mut bytes = BASE64.decode(&blob).unwrap();
    let last = bytes.len() - 1;
    bytes[last] ^= 0x80;
    let tampered = BASE64.encode(&bytes);
    assert!(matches!(decrypt_with(&key, &tampered), Err(CryptoError::Authentication(_))));
}

#[test]
fn decrypt_of_what_is_no_base64_is_an_encoding_error() {
    let result = decrypt_with(&key_of_alice(), "not-valid-base64!@#");
    assert!(matches!(result, Err(CryptoError::Encoding(_))));
    assert!(!result.err().unwrap().message().is_empty());
}

#[test]
fn decrypt_below_nonce_and_tag_is_invalid_data() {
    let key = key_of_alice();
    for len in [0usize, 3, 11, 12, 27] {
        let blob = BASE64.encode(vec![7u8; len]);
        let result = decrypt_with(&key, &blob);
        assert!(matches!(result, Err(CryptoError::InvalidData)));
        assert_eq!(result.err().unwrap().message(), "Invalid encrypted data");
    }
    let blob = BASE64.encode(vec![7u8; 28]);
    assert!(matches!(decrypt_with(&key, &blob), Err(CryptoError::Authentication(_))));
}

#[test]
fn decrypt_of_sealed_bytes_that_are_no_text_is_refused() {
    // 0xff 0xfe sealed under alice's key with the counting nonce
    let key = key_of_alice();
    let blob = "AAECAwQFBgcICQoL2nXHHQaCwsMP0u29jUiaz94h";
    let result = decrypt_with(&key, blob);
    assert!(matches!(result, Err(CryptoError::NotText(_))));
}

#[test]
fn too_long_has_a_message() {
    assert_eq!(CryptoError::TooLong.message(), "Password too long");
}
