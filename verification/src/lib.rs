//! A local password vault: Argon2id key derivation, AES-256-GCM sealing, a framed
//! vault file with backup rotation, a random password generator, the vault's
//! entries, and the decisions of the desktop commands.
pub mod text;
pub mod error;
pub mod crypto;
pub mod file_format;
pub mod password_generator;
pub mod vault;
pub mod ids;
pub mod state;
pub mod commands;

pub use error::VaultError;
pub use file_format::{open_vault_payload, seal_vault_payload, VaultFileHeader};
pub use password_generator::{generate_default_password, generate_password, PasswordConfig};
pub use vault::{SecretString, Vault, VaultEntry};
