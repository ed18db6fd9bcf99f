use vault_core::crypto::Argon2Params;
use vault_core::file_format::{
    backup_file_name, backup_timestamp, frame_vault_file, is_backup_name, stale_backups, unframe_vault_file, MAGIC,
};
use vault_core::{open_vault_payload, seal_vault_payload, VaultError, VaultFileHeader};

#[test]
fn header_records_its_params() {
    let p = Argon2Params { memory_cost_kib: 1024, iterations: 2, parallelism: 1 };
    let h = VaultFileHeader::new(p);
    assert_eq!(h.version, 1);
    assert_eq!(h.salt.len(), 22);
    let q = h.get_argon2_params();
    assert_eq!((q.memory_cost_kib, q.iterations, q.parallelism), (1024, 2, 1));
    let h2 = VaultFileHeader::new(p);
    assert_ne!(h.salt, h2.salt);
}

#[test]
fn framing_round_trip() {
    let body = br#"{"header":{}}"#.to_vec();
    let framed = frame_vault_file(&body);
    assert_eq!(&framed[..8], b"RUSTPW01");
    assert_eq!(&MAGIC, b"RUSTPW01");
    assert_eq!(unframe_vault_file(&framed).unwrap(), body);
    assert_eq!(unframe_vault_file(b"RUSTPW01").unwrap(), Vec::<u8>::new());
}

#[test]
fn bad_magic_is_invalid_format() {
    assert!(matches!(unframe_vault_file(b"RUSTPW02{}"), Err(VaultError::InvalidFormat)));
    assert!(matches!(unframe_vault_file(b"RUST"), Err(VaultError::InvalidFormat)));
    assert!(matches!(unframe_vault_file(b""), Err(VaultError::InvalidFormat)));
}

#[test]
fn sealed_payload_opens_with_the_right_password() {
    let plaintext = br#"{"entries":[],"created_at":1,"updated_at":1}"#.to_vec();
    let (header, ciphertext) = seal_vault_payload(&plaintext, "master_password").unwrap();
    assert_eq!(header.version, 1);
    assert_eq!(header.argon2_memory_kib, 65536);
    assert_eq!(header.argon2_iterations, 3);
    assert_eq!(header.argon2_parallelism, 4);
    assert_eq!(ciphertext.len(), plaintext.len() + 16);
    assert_eq!(open_vault_payload(&header, &ciphertext, "master_password").unwrap(), plaintext);
}

#[test]
fn wrong_password_or_version_is_refused() {
    let plaintext = b"{}".to_vec();
    let (mut header, ciphertext) = seal_vault_payload(&plaintext, "correct_password").unwrap();
    assert!(matches!(
        open_vault_payload(&header, &ciphertext, "wrong_password"),
        Err(VaultError::InvalidMasterPassword)
    ));
    header.version = 2;
    assert!(matches!(
        open_vault_payload(&header, &ciphertext, "correct_password"),
        Err(VaultError::InvalidFormat)
    ));
}

#[test]
fn header_with_bad_params_gives_a_crypto_error() {
    let (mut header, ciphertext) = seal_vault_payload(b"{}", "pw").unwrap();
    header.argon2_iterations = 0;
    assert!(matches!(open_vault_payload(&header, &ciphertext, "pw"), Err(VaultError::CryptoError(_))));
}

#[test]
fn backup_names() {
    assert_eq!(backup_file_name(Some("vault"), "20260131_185921"), "vault.20260131_185921.bak");
    assert_eq!(backup_file_name(None, "20260131_185921"), "vault.20260131_185921.bak");
    assert_eq!(backup_file_name(Some("coffre"), "x"), "coffre.x.bak");
    assert!(is_backup_name("vault.20260131_185921.bak", "vault"));
    assert!(is_backup_name("vault.bak", "vault"));
    assert!(!is_backup_name("vault.dat", "vault"));
    assert!(!is_backup_name("other.1.bak", "vault"));
    assert!(!is_backup_name("vau", "vault"));
}

#[test]
fn rotation_keeps_the_newest() {
    let times = [30i128, 10, 50, 20, 40];
    assert_eq!(stale_backups(&times, 2), vec![true, true, false, true, false]);
    assert_eq!(stale_backups(&times, 0), vec![true; 5]);
    assert_eq!(stale_backups(&times, 5), vec![false; 5]);
    assert_eq!(stale_backups(&times, 9), vec![false; 5]);
    let ties = [5i128, 5, 5];
    assert_eq!(stale_backups(&ties, 1), vec![false, true, true]);
    assert_eq!(stale_backups(&[], 3), Vec::<bool>::new());
}

#[test]
fn backup_timestamp_shape() {
    let t = backup_timestamp();
    let chars: Vec<char> = t.chars().collect();
    assert_eq!(chars.len(), 15);
    assert_eq!(chars[8], '_');
    for (i, c) in chars.iter().enumerate() {
        if i != 8 {
            assert!(c.is_ascii_digit());
        }
    }
    assert!(t.starts_with("20"));
}
