use vault_core::crypto::{
    decrypt_data, derive_key, encrypt_data, generate_nonce, generate_salt, kdf_would_panic,
    Argon2Params,
};
use vault_core::VaultError;

#[test]
fn test_key_derivation() {
    let password = "test_password";
    let salt = generate_salt();
    let params = Argon2Params::default();

    let key = derive_key(password, &salt, params).unwrap();
    assert_eq!(key.len(), 32);
}

#[test]
fn test_encryption_decryption() {
    let key = [0u8; 32];
    let nonce = [0u8; 12];
    let plaintext = b"Hello, World!";

    let ciphertext = encrypt_data(&key, &nonce, plaintext).unwrap();
    let decrypted = decrypt_data(&key, &nonce, &ciphertext).unwrap();

    assert_eq!(plaintext.as_slice(), decrypted.as_slice());
}

fn small_params() -> Argon2Params {
    Argon2Params { memory_cost_kib: 64, iterations: 1, parallelism: 1 }
}

#[test]
fn default_params_are_64_mib_3_passes_4_lanes() {
    let p = Argon2Params::default();
    assert_eq!(p.memory_cost_kib, 65536);
    assert_eq!(p.iterations, 3);
    assert_eq!(p.parallelism, 4);
}

#[test]
fn salt_is_22_b64_characters() {
    let salt = generate_salt();
    assert_eq!(salt.len(), 22);
    assert!(salt.iter().all(|b| b.is_ascii_alphanumeric() || *b == b'+' || *b == b'/'));
}

#[test]
fn nonce_has_12_bytes() {
    let a = generate_nonce();
    assert_eq!(a.len(), 12);
}

#[test]
fn derivation_is_deterministic_and_depends_on_password_and_salt() {
    let salt = b"saltsaltsalt".to_vec();
    let k1 = derive_key("pw", &salt, small_params()).unwrap();
    let k2 = derive_key("pw", &salt, small_params()).unwrap();
    let k3 = derive_key("other", &salt, small_params()).unwrap();
    let k4 = derive_key("pw", b"another salt", small_params()).unwrap();
    let s1 = k1.as_slice().to_vec();
    assert_eq!(s1, k2.as_slice().to_vec());
    assert_ne!(s1, k3.as_slice().to_vec());
    assert_ne!(s1, k4.as_slice().to_vec());
    assert_ne!(s1, b"pw".to_vec());
}

fn crypto_message(r: Result<vault_core::crypto::SecretBytes, VaultError>) -> String {
    match r {
        Err(VaultError::CryptoError(m)) => m,
        _ => panic!("expected a crypto error"),
    }
}

#[test]
fn bad_params_are_refused() {
    let salt = b"saltsaltsalt".to_vec();
    let p = Argon2Params { memory_cost_kib: 4, iterations: 1, parallelism: 1 };
    assert!(crypto_message(derive_key("pw", &salt, p)).starts_with("Failed to create Argon2 params: "));
    let p = Argon2Params { memory_cost_kib: 64, iterations: 0, parallelism: 1 };
    assert!(crypto_message(derive_key("pw", &salt, p)).starts_with("Failed to create Argon2 params: "));
    let p = Argon2Params { memory_cost_kib: 64, iterations: 1, parallelism: 9 };
    assert!(crypto_message(derive_key("pw", &salt, p)).starts_with("Failed to create Argon2 params: "));
}

#[test]
fn salt_length_limits() {
    let long = vec![7u8; 49];
    assert!(crypto_message(derive_key("pw", &long, small_params())).starts_with("Invalid salt: "));
    let short = vec![7u8; 5];
    assert!(crypto_message(derive_key("pw", &short, small_params())).starts_with("Key derivation failed: "));
    assert!(derive_key("pw", &vec![7u8; 8], small_params()).is_ok());
    assert!(derive_key("pw", &vec![7u8; 48], small_params()).is_ok());
}

#[test]
fn ciphertext_is_sixteen_bytes_longer_and_differs() {
    let key = [3u8; 32];
    let nonce = [9u8; 12];
    let plaintext = b"some secret text".to_vec();
    let c = encrypt_data(&key, &nonce, &plaintext).unwrap();
    assert_eq!(c.len(), plaintext.len() + 16);
    assert_ne!(&c[..plaintext.len()], plaintext.as_slice());
}

#[test]
fn key_must_be_32_bytes() {
    let nonce = [0u8; 12];
    match encrypt_data(&[0u8; 16], &nonce, b"x") {
        Err(VaultError::CryptoError(m)) => assert_eq!(m, "Key must be 32 bytes"),
        _ => panic!("expected a crypto error"),
    }
    match decrypt_data(&[0u8; 31], &nonce, b"x") {
        Err(VaultError::CryptoError(m)) => assert_eq!(m, "Key must be 32 bytes"),
        _ => panic!("expected a crypto error"),
    }
}

#[test]
fn wrong_key_or_altered_data_is_a_wrong_password() {
    let key = [1u8; 32];
    let nonce = [2u8; 12];
    let mut c = encrypt_data(&key, &nonce, b"payload").unwrap();
    assert!(matches!(decrypt_data(&[5u8; 32], &nonce, &c), Err(VaultError::InvalidMasterPassword)));
    assert!(matches!(decrypt_data(&key, &[0u8; 12], &c), Err(VaultError::InvalidMasterPassword)));
    c[0] ^= 1;
    assert!(matches!(decrypt_data(&key, &nonce, &c), Err(VaultError::InvalidMasterPassword)));
    assert!(matches!(decrypt_data(&key, &nonce, b"short"), Err(VaultError::InvalidMasterPassword)));
}

#[test]
fn empty_plaintext_round_trips() {
    let key = [4u8; 32];
    let nonce = [6u8; 12];
    let c = encrypt_data(&key, &nonce, b"").unwrap();
    assert_eq!(c.len(), 16);
    assert_eq!(decrypt_data(&key, &nonce, &c).unwrap(), Vec::<u8>::new());
}

#[test]
fn kdf_panic_inputs() {
    let ok = Argon2Params::default();
    assert!(!kdf_would_panic(22, ok));
    assert!(kdf_would_panic(2, ok));
    let huge = Argon2Params { memory_cost_kib: 65536, iterations: 3, parallelism: 0x2000_0000 };
    assert!(kdf_would_panic(22, huge));
    let refused = Argon2Params { memory_cost_kib: 4, iterations: 3, parallelism: 1 };
    assert!(!kdf_would_panic(2, refused));
}
