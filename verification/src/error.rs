//! The errors of the vault library.
use vstd::prelude::*;

verus! {

/// `std::io::Error`, carried through as it is.
#[verifier::external_type_specification]
#[verifier::external_body]
pub struct ExIoError(std::io::Error);

/// `serde_json::Error`, carried through as it is.
#[verifier::external_type_specification]
#[verifier::external_body]
pub struct ExJsonError(serde_json::Error);

/// What can go wrong when working with a vault.
#[derive(Debug)]
pub enum VaultError {
    CryptoError(String),
    InvalidMasterPassword,
    FileNotFound,
    IoError(std::io::Error),
    SerializationError(serde_json::Error),
    InvalidFormat,
    EntryNotFound(String),
}

} // verus!
