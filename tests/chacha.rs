use base64::Engine;
use rcli::chacha::{decrypt, derive_key, encrypt, open_with, seal};
use rcli::{ChaCha, CipherError};

const URL_SAFE_NO_PAD: base64::engine::GeneralPurpose =
    base64::engine::general_purpose::URL_SAFE_NO_PAD;

fn hex(bytes: &[u8]) -> String {
    bytes.iter().map(|b| format!("{:02x}", b)).collect()
}

fn nonce_counting() -> [u8; 12] {
    [0, 1, 2, 3, 4, 5, 6, 7, 8, 9, 10, 11]
}

#[test]
fn test_process_encrypt_decrypt() {
    let key = "test-key";
    let bad_key = "bad-key";
    let input = "test-input";
    let encrypted = ChaCha::process_encrypt(key, input.as_bytes()).unwrap();
    let decrypted = ChaCha::process_decrypt(key, &encrypted).unwrap();
    assert_eq!(input, decrypted);

    let failed = ChaCha::process_decrypt(bad_key, input);
    assert!(failed.is_err());
}

#[test]
fn scenario_wrong_passphrase_fails() {
    let token = ChaCha::process_encrypt("test-key", "test-input".as_bytes()).unwrap();
    assert_eq!(ChaCha::process_decrypt("test-key", &token), Ok("test-input".to_string()));
    assert_eq!(
        ChaCha::process_decrypt("bad-key", &token),
        Err(CipherError::AuthenticationFailure)
    );
}

#[test]
fn round_trip_of_several_texts() {
    for text in ["", "a", "hello, world", "ünïcödé ✓ 漢字", "line one\nline two\n"] {
        let token = ChaCha::process_encrypt("a passphrase", text.as_bytes()).unwrap();
        assert_eq!(ChaCha::process_decrypt("a passphrase", &token), Ok(text.to_string()));
    }
}

#[test]
fn passphrase_is_trimmed() {
    let token = ChaCha::process_encrypt("  test-key\n", "payload".as_bytes()).unwrap();
    assert_eq!(ChaCha::process_decrypt("test-key", &token), Ok("payload".to_string()));
    assert_eq!(derive_key("\ttest-key  "), derive_key("test-key"));
}

#[test]
fn key_sensitivity() {
    let key1 = derive_key("first passphrase");
    let key2 = derive_key("second passphrase");
    let token = encrypt(&key1, "secret message".as_bytes()).unwrap();
    assert_eq!(decrypt(&key2, &token), Err(CipherError::AuthenticationFailure));
}

#[test]
fn nonces_differ_between_encryptions() {
    let key = derive_key("test-key");
    let t1 = encrypt(&key, "same input".as_bytes()).unwrap();
    let t2 = encrypt(&key, "same input".as_bytes()).unwrap();
    let b1 = URL_SAFE_NO_PAD.decode(&t1).unwrap();
    let b2 = URL_SAFE_NO_PAD.decode(&t2).unwrap();
    assert_ne!(b1[..12], b2[..12]);
    assert_ne!(t1, t2);
}

#[test]
fn tampering_is_detected() {
    let key = derive_key("test-key");
    let token = encrypt(&key, "do not alter".as_bytes()).unwrap();
    let bytes = URL_SAFE_NO_PAD.decode(&token).unwrap();
    for pos in 12..bytes.len() {
        for bit in 0..8 {
            let mut altered = bytes.clone();
            altered[pos] ^= 1 << bit;
            let altered_token = URL_SAFE_NO_PAD.encode(&altered);
            assert_eq!(decrypt(&key, &altered_token), Err(CipherError::AuthenticationFailure));
        }
    }
}

#[test]
fn short_envelope_is_malformed() {
    let key = derive_key("test-key");
    for len in 0..12 {
        let token = URL_SAFE_NO_PAD.encode(vec![7u8; len]);
        assert_eq!(decrypt(&key, &token), Err(CipherError::MalformedEnvelope));
    }
}

#[test]
fn non_base64_text_fails_to_decode() {
    let key = derive_key("test-key");
    assert_eq!(decrypt(&key, "not base64!"), Err(CipherError::DecodeFailure));
    assert_eq!(decrypt(&key, "a+b/"), Err(CipherError::DecodeFailure));
    let token = encrypt(&key, "x".as_bytes()).unwrap();
    let padded = format!("{}=", token);
    assert_eq!(decrypt(&key, &padded), Err(CipherError::DecodeFailure));
}

#[test]
fn envelope_of_exactly_a_nonce_fails_authentication() {
    let key = derive_key("test-key");
    let token = URL_SAFE_NO_PAD.encode([0u8; 12]);
    assert_eq!(decrypt(&key, &token), Err(CipherError::AuthenticationFailure));
}

#[test]
fn non_utf8_plaintext_fails_encoding() {
    let key = derive_key("test-key");
    let token = seal(&key, &nonce_counting(), &[0xff, 0xfe, 0x00]).unwrap();
    assert_eq!(decrypt(&key, &token), Err(CipherError::EncodingFailure));
}

#[test]
fn trailing_newline_is_ignored() {
    let key = derive_key("test-key");
    let token = encrypt(&key, "newline test".as_bytes()).unwrap();
    let with_newline = format!("{}\n", token);
    assert_eq!(decrypt(&key, &with_newline), decrypt(&key, &token));
    assert_eq!(decrypt(&key, &with_newline), Ok("newline test".to_string()));
    let surrounded = format!("  \r\n{}\t\n", token);
    assert_eq!(decrypt(&key, &surrounded), Ok("newline test".to_string()));
}

#[test]
fn seal_known_answer() {
    let key = derive_key("test-key");
    let token = seal(&key, &nonce_counting(), "test-input".as_bytes()).unwrap();
    assert_eq!(token, "AAECAwQFBgcICQoLnUbEsP2O3q3LgZqzjALq__hCkwV_rMcT52Y");
    assert_eq!(decrypt(&key, &token), Ok("test-input".to_string()));
}

#[test]
fn token_layout() {
    let key = derive_key("test-key");
    let token = seal(&key, &nonce_counting(), "abc".as_bytes()).unwrap();
    let bytes = URL_SAFE_NO_PAD.decode(&token).unwrap();
    assert_eq!(bytes.len(), 12 + 3 + 16);
    assert_eq!(bytes[..12], nonce_counting());
    assert_ne!(bytes[12..15], *"abc".as_bytes());
    assert!(!token.contains('='));
    assert!(token.chars().all(|c| c.is_ascii_alphanumeric() || c == '-' || c == '_'));
}

#[test]
fn empty_plaintext_round_trip() {
    let key = derive_key("");
    let token = encrypt(&key, &[]).unwrap();
    assert_eq!(URL_SAFE_NO_PAD.decode(&token).unwrap().len(), 28);
    assert_eq!(decrypt(&key, &token), Ok(String::new()));
}

#[test]
fn derive_key_is_sha256_of_trimmed_passphrase() {
    assert_eq!(
        hex(&derive_key("abc")),
        "ba7816bf8f01cfea414140de5dae2223b00361a396177a9cb410ff61f20015ad"
    );
    assert_eq!(
        hex(&derive_key("   ")),
        "e3b0c44298fc1c149afbf4c8996fb92427ae41e4649b934ca495991b7852b855"
    );
    assert_eq!(
        hex(&derive_key(" test-key ")),
        "62af8704764faf8ea82fc61ce9c4c3908b6cb97d463a634e9e587d7c885db0ef"
    );
}

#[test]
fn token_lengths_are_unpadded() {
    let token = ChaCha::process_encrypt("test-key", "test-input".as_bytes()).unwrap();
    assert_eq!(URL_SAFE_NO_PAD.decode(&token).unwrap().len(), 38);
    assert_eq!(token.len(), 51);
    assert!(!token.contains('='));

    let empty = ChaCha::process_encrypt("test-key", "".as_bytes()).unwrap();
    assert_eq!(URL_SAFE_NO_PAD.decode(&empty).unwrap().len(), 28);
    assert_eq!(empty.len(), 38);
}

#[test]
fn open_with_maps_each_cipher_outcome() {
    let envelope = [5u8; 40];
    assert_eq!(open_with(&envelope, Some(b"hello".to_vec())), Ok("hello".to_string()));
    assert_eq!(open_with(&envelope, Some(Vec::new())), Ok(String::new()));
    assert_eq!(open_with(&envelope, None), Err(CipherError::AuthenticationFailure));
    assert_eq!(
        open_with(&envelope, Some(vec![0xc3, 0x28])),
        Err(CipherError::EncodingFailure)
    );
    assert_eq!(open_with(&[1u8; 11], Some(b"x".to_vec())), Err(CipherError::MalformedEnvelope));
    assert_eq!(open_with(&[], None), Err(CipherError::MalformedEnvelope));
    assert_eq!(open_with(&[1u8; 12], Some(b"ok".to_vec())), Ok("ok".to_string()));
}
