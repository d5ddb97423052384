use base64::Engine;
use ephemeral_file_share::encryption::{
    decrypt, encrypt, encrypt_with_nonce, generate_key, generate_token, key_token, EncryptionError,
    Key,
};

#[test]
fn test_encrypt_decrypt() {
    let key = generate_key().unwrap();
    let plain_data = b"Hello, World! This is a secret message.";

    let (encrypted, nonce) = encrypt(plain_data, &key).unwrap();
    let decrypted = decrypt(&encrypted, &nonce, &key).unwrap();

    assert_eq!(plain_data.as_slice(), &decrypted);
}

#[test]
fn test_generate_token() {
    let token1 = generate_token();
    let token2 = generate_token();

    assert_ne!(token1, token2);
    assert_eq!(token1.len(), 43); // URL_SAFE_NO_PAD encoding of 32 bytes
}

#[test]
fn test_wrong_key_fails() {
    let key1 = generate_key().unwrap();
    let key2 = generate_key().unwrap();
    let data = b"Secret data";

    let (encrypted, nonce) = encrypt(data, &key1).unwrap();
    let result = decrypt(&encrypted, &nonce, &key2);

    assert!(result.is_err());
}

#[test]
fn ciphertext_is_tagged_and_differs_from_plaintext() {
    let key = generate_key().unwrap();
    let data = b"attack at dawn";
    let (encrypted, nonce) = encrypt(data, &key).unwrap();
    assert_eq!(nonce.len(), 12);
    assert_eq!(encrypted.len(), data.len() + 16);
    assert_ne!(&encrypted[..data.len()], data.as_slice());
}

#[test]
fn same_key_and_nonce_seal_the_same_way() {
    let key = Key::from_bytes(&[7u8; 32]).unwrap();
    let nonce = [1u8; 12];
    let a = encrypt_with_nonce(b"same message", &key, &nonce).unwrap();
    let b = encrypt_with_nonce(b"same message", &key, &nonce).unwrap();
    assert_eq!(a, b);
    assert_eq!(decrypt(&a, &nonce, &key).unwrap(), b"same message".to_vec());
}

#[test]
fn empty_message_round_trips() {
    let key = generate_key().unwrap();
    let (encrypted, nonce) = encrypt(b"", &key).unwrap();
    assert_eq!(encrypted.len(), 16);
    assert_eq!(decrypt(&encrypted, &nonce, &key).unwrap(), Vec::<u8>::new());
}

#[test]
fn tampered_ciphertext_is_refused() {
    let key = generate_key().unwrap();
    let (mut encrypted, nonce) = encrypt(b"do not touch", &key).unwrap();
    encrypted[0] ^= 1;
    match decrypt(&encrypted, &nonce, &key) {
        Err(e) => assert_eq!(e.message(), "Decryption failed: aead::Error"),
        Ok(_) => panic!("a tampered text was accepted"),
    }
}

#[test]
fn text_shorter_than_tag_is_refused() {
    let key = generate_key().unwrap();
    let result = decrypt(&[0u8; 15], &[0u8; 12], &key);
    assert!(matches!(result, Err(EncryptionError::DecryptionFailed(_))));
}

#[test]
fn key_needs_exactly_32_bytes() {
    assert!(Key::from_bytes(&[0u8; 31]).is_none());
    assert!(Key::from_bytes(&[0u8; 33]).is_none());
    let key = Key::from_bytes(&[9u8; 32]).unwrap();
    assert_eq!(key.to_bytes(), vec![9u8; 32]);
    assert_eq!(key.len(), 32);
}

#[test]
fn error_messages() {
    assert_eq!(
        EncryptionError::EncryptionFailed("aead::Error".to_string()).message(),
        "Encryption failed: aead::Error"
    );
    assert_eq!(
        EncryptionError::DecryptionFailed("x".to_string()).message(),
        "Decryption failed: x"
    );
    assert_eq!(EncryptionError::InvalidKeyLength.message(), "Invalid key length");
}

#[test]
fn token_uses_url_safe_alphabet() {
    let token = generate_token();
    assert!(token
        .chars()
        .all(|c| c.is_ascii_alphanumeric() || c == '-' || c == '_'));
    assert_eq!(base64::engine::general_purpose::URL_SAFE_NO_PAD.decode(&token).unwrap().len(), 32);
}


#[test]
fn key_token_reads_back_as_the_key() {
    let key = generate_key().unwrap();
    let token = key_token(&key);
    assert_eq!(token.len(), 43);
    assert_eq!(base64::engine::general_purpose::URL_SAFE_NO_PAD.decode(&token).unwrap(), key.to_bytes());
    let back = Key::from_token(&token).unwrap();
    assert_eq!(back.to_bytes(), key.to_bytes());
    assert!(Key::from_token("not base64!").is_none());
    let short = base64::engine::general_purpose::URL_SAFE_NO_PAD.encode([7u8; 16]);
    assert!(Key::from_token(&short).is_none());
    let fixed = Key::from_bytes(&[1u8; 32]).unwrap();
    assert_eq!(key_token(&fixed), "AQEBAQEBAQEBAQEBAQEBAQEBAQEBAQEBAQEBAQEBAQE");
}
