//! Key derivation (Argon2id) and authenticated encryption (AES-256-GCM).
use vstd::prelude::*;
use aes_gcm::aead::{Aead, KeyInit, OsRng};
use aes_gcm::{Aes256Gcm, Nonce};
use argon2::password_hash::SaltString;
use argon2::PasswordHasher;
use rand::RngCore;
use zeroize::Zeroizing;
use crate::error::VaultError;
use crate::text::{lemma_prefix_of_concat, starts_with};

verus! {

/// Argon2id cost parameters.
#[derive(Debug, Clone, Copy)]
pub struct Argon2Params {
    /// Memory, in KiB.
    pub memory_cost_kib: u32,
    pub iterations: u32,
    pub parallelism: u32,
}

/// The parameters a new vault is sealed with: 64 MiB, 3 passes, 4 lanes.
pub open spec fn default_params() -> Argon2Params {
    Argon2Params { memory_cost_kib: 65536, iterations: 3, parallelism: 4 }
}

impl Default for Argon2Params {
    fn default() -> (p: Self)
        ensures
            p == default_params(),
    {
        Argon2Params { memory_cost_kib: 65536, iterations: 3, parallelism: 4 }
    }
}

/// Length in bytes of a derived key (AES-256).
pub const KEY_LEN: usize = 32;

/// Largest plaintext AES-GCM accepts, in bytes (2^36).
pub const GCM_MAX_PLAINTEXT: u64 = 68719476736;

/// Length in bytes of the tag AES-GCM appends to a ciphertext.
pub const GCM_TAG_LEN: usize = 16;

/// Length in bytes of a salt made by `generate_salt`: 16 random bytes in unpadded B64.
pub const SALT_LEN: usize = 22;

// ---------------------------------------------------------------------------
// Argon2id

/// The Argon2id (version 0x13) key of `KEY_LEN` bytes that `argon2` derives from a
/// password and salt (both taken as raw bytes) with memory `m` KiB, `t` passes and
/// `p` lanes.
pub uninterp spec fn argon2id_key(password: Seq<u8>, salt: Seq<u8>, m: u32, t: u32, p: u32) -> Seq<u8>;

/// Whether `argon2::Params::new` accepts the costs.
pub open spec fn argon2_costs_ok(m: u32, t: u32, p: u32) -> bool {
    &&& m >= 8
    &&& m >= 8 * p
    &&& t >= 1
    &&& 1 <= p <= 0xFFFFFF
}

/// Whether the parameters are ones Argon2 accepts.
pub open spec fn params_ok(params: Argon2Params) -> bool {
    argon2_costs_ok(params.memory_cost_kib, params.iterations, params.parallelism)
}

/// Inputs on which `argon2` panics rather than return: `Params::new` computes
/// `8 * p` before it bounds `p`, and a salt of under 3 bytes gives a salt string
/// that the hasher then refuses with a panic.
pub open spec fn kdf_panics(salt_len: nat, params: Argon2Params) -> bool {
    ||| params.memory_cost_kib >= 8 && 8 * params.parallelism > u32::MAX
    ||| params_ok(params) && salt_len < 3
}

/// Whether Argon2 gets as far as the salt and refuses it: the costs are accepted
/// and the salt is too long to be written as a salt string (over 48 bytes).
pub open spec fn salt_refused(salt: Seq<u8>, m: u32, t: u32, p: u32) -> bool {
    argon2_costs_ok(m, t, p) && salt.len() > 48
}

/// Whether Argon2 derives a key: costs accepted, a salt of 8 to 48 bytes and a
/// password of at most 2^32 - 1 bytes.
pub open spec fn argon2_accepts(password: Seq<u8>, salt: Seq<u8>, m: u32, t: u32, p: u32) -> bool {
    argon2_costs_ok(m, t, p) && 8 <= salt.len() <= 48 && password.len() <= 0xFFFF_FFFF
}

/// The key `derive_key` gives, or `None` where it fails.
pub open spec fn derived_key(password: Seq<u8>, salt: Seq<u8>, params: Argon2Params) -> Option<Seq<u8>> {
    if argon2_accepts(password, salt, params.memory_cost_kib, params.iterations, params.parallelism) {
        Some(argon2id_key(password, salt, params.memory_cost_kib, params.iterations, params.parallelism))
    } else {
        None
    }
}

/// The message prefix of a failed key derivation.
pub open spec fn kdf_error_prefix(salt: Seq<u8>, params: Argon2Params) -> Seq<char> {
    if !params_ok(params) {
        "Failed to create Argon2 params: "@
    } else if salt.len() > 48 {
        "Invalid salt: "@
    } else {
        "Key derivation failed: "@
    }
}

/// Which step of the Argon2 derivation failed, with the outside error's text.
enum KdfFailure {
    Params(String),
    SaltEncoding(String),
    Hash(String),
    NoHash,
}

/// Trusted: Argon2id derivation with `argon2`: `Params::new(m, t, p, Some(32))`,
/// `Argon2::new(Argon2id, V0x13, ..)`, `SaltString::encode_b64(salt)` and
/// `PasswordHasher::hash_password`. Claimed, from the crate's source: the parameters
/// are refused exactly when `argon2_costs_ok` fails; the salt encoding fails exactly
/// for salts over 48 bytes; hashing fails for decoded salts under 8 bytes and for
/// passwords over 2^32 - 1 bytes, and otherwise returns a hash of 32 bytes, named
/// `argon2id_key`. Out-of-memory while filling the Argon2 blocks aborts; that is not stated.
#[verifier::external_body]
fn argon2id_derive(password: &[u8], salt: &[u8], m: u32, t: u32, p: u32) -> (r: Result<Vec<u8>, KdfFailure>)
    requires
        !kdf_panics(salt@.len(), (Argon2Params { memory_cost_kib: m, iterations: t, parallelism: p })),
    ensures
        (r is Err && r->Err_0 is Params) <==> !argon2_costs_ok(m, t, p),
        (r is Err && r->Err_0 is SaltEncoding) <==> salt_refused(salt@, m, t, p),
        !(r is Err && r->Err_0 is NoHash),
        r is Ok <==> argon2_accepts(password@, salt@, m, t, p),
        r matches Ok(k) ==> k@ == argon2id_key(password@, salt@, m, t, p) && k@.len() == KEY_LEN,
{
    let params = match argon2::Params::new(m, t, p, Some(KEY_LEN)) {
        Ok(v) => v,
        Err(e) => return Err(KdfFailure::Params(e.to_string())),
    };
    let hasher = argon2::Argon2::new(argon2::Algorithm::Argon2id, argon2::Version::V0x13, params);
    let salt_string = match SaltString::encode_b64(salt) {
        Ok(s) => s,
        Err(e) => return Err(KdfFailure::SaltEncoding(e.to_string())),
    };
    match hasher.hash_password(password, &salt_string) {
        Ok(h) => match h.hash { Some(out) => Ok(out.as_bytes().to_vec()), None => Err(KdfFailure::NoHash) },
        Err(e) => Err(KdfFailure::Hash(e.to_string())),
    }
}

// ---------------------------------------------------------------------------
// Secret buffers

/// Key bytes held in a `zeroize::Zeroizing<Vec<u8>>`: the buffer is overwritten
/// with zeros when the value is dropped. The buffer is private; its contents are
/// read through `secret_bytes`.
#[verifier::external_body]
pub struct SecretBytes {
    inner: Zeroizing<Vec<u8>>,
}

/// The bytes held by a secret buffer.
pub uninterp spec fn secret_bytes(z: SecretBytes) -> Seq<u8>;

/// Trusted: `Zeroizing::new`, which only moves the vector inside.
#[verifier::external_body]
fn zeroizing(v: Vec<u8>) -> (z: SecretBytes)
    ensures
        secret_bytes(z) == v@,
{
    SecretBytes { inner: Zeroizing::new(v) }
}

/// Trusted: `Deref` of `Zeroizing<Vec<u8>>`, read as a slice of the held bytes.
#[verifier::external_body]
pub(crate) fn secret_slice(z: &SecretBytes) -> (s: &[u8])
    ensures
        s@ == secret_bytes(*z),
{
    z.inner.as_slice()
}

impl SecretBytes {
    /// The bytes held.
    pub fn as_slice(&self) -> (s: &[u8])
        ensures
            s@ == secret_bytes(*self),
    {
        secret_slice(self)
    }

    /// Number of bytes held.
    pub fn len(&self) -> (n: usize)
        ensures
            n == secret_bytes(*self).len(),
    {
        secret_slice(self).len()
    }
}

// ---------------------------------------------------------------------------
// AES-256-GCM

/// What `Aes256Gcm::encrypt` returns for a 32-byte key, a 12-byte nonce and a
/// plaintext, with no associated data: the ciphertext followed by the 16-byte tag.
pub uninterp spec fn aes256gcm_seal(key: Seq<u8>, nonce: Seq<u8>, plaintext: Seq<u8>) -> Seq<u8>;

/// Trusted: `Aes256Gcm::new_from_slice(key)` then `encrypt(Nonce::from_slice(nonce), plaintext)`.
/// Claimed, from `aes-gcm`: with a 32-byte key the cipher is built; encryption
/// fails exactly for plaintexts over 2^36 bytes; otherwise it returns the sealed
/// bytes, named `aes256gcm_seal`, 16 bytes longer than the plaintext. The error
/// is returned as its text.
#[verifier::external_body]
fn aes256gcm_encrypt(key: &[u8], nonce: &[u8; 12], plaintext: &[u8]) -> (r: Result<Vec<u8>, String>)
    requires
        key@.len() == KEY_LEN,
    ensures
        r is Ok <==> plaintext@.len() <= GCM_MAX_PLAINTEXT,
        r matches Ok(c) ==> c@ == aes256gcm_seal(key@, nonce@, plaintext@) && c@.len() == plaintext@.len() + GCM_TAG_LEN,
{
    match Aes256Gcm::new_from_slice(key) {
        Ok(cipher) => match cipher.encrypt(Nonce::from_slice(nonce), plaintext) {
            Ok(c) => Ok(c),
            Err(e) => Err(e.to_string()),
        },
        Err(e) => Err(e.to_string()),
    }
}

/// Trusted: `Aes256Gcm::new_from_slice(key)` then `decrypt(Nonce::from_slice(nonce), ciphertext)`.
/// Claimed, from `aes-gcm`: a plaintext comes back only if sealing it gives the
/// ciphertext (the tag is checked), and every plaintext of at most 2^36 bytes is
/// given back from its own sealing. `None` stands for the refused tag.
#[verifier::external_body]
fn aes256gcm_decrypt(key: &[u8], nonce: &[u8; 12], ciphertext: &[u8]) -> (r: Option<Vec<u8>>)
    requires
        key@.len() == KEY_LEN,
    ensures
        r matches Some(p) ==> aes256gcm_seal(key@, nonce@, p@) == ciphertext@,
        forall|p: Seq<u8>|
            p.len() <= GCM_MAX_PLAINTEXT && #[trigger] aes256gcm_seal(key@, nonce@, p) == ciphertext@
                ==> r is Some && r->Some_0@ == p,
{
    match Aes256Gcm::new_from_slice(key) {
        Ok(cipher) => cipher.decrypt(Nonce::from_slice(nonce), ciphertext).ok(),
        Err(_) => None,
    }
}

// ---------------------------------------------------------------------------
// Randomness

/// Whether a byte is a character of the standard B64 alphabet (`A-Z`, `a-z`, `0-9`, `+`, `/`).
pub open spec fn is_b64_byte(b: u8) -> bool {
    (65 <= b <= 90) || (97 <= b <= 122) || (48 <= b <= 57) || b == 43 || b == 47
}

/// A random salt for Argon2: the text of `SaltString::generate(&mut OsRng)`,
/// 16 random bytes written as 22 characters of unpadded B64.
/// Trusted: only the length and the alphabet are claimed.
#[verifier::external_body]
pub fn generate_salt() -> (salt: Vec<u8>)
    ensures
        salt@.len() == SALT_LEN,
        forall|i: int| 0 <= i < salt@.len() ==> is_b64_byte(#[trigger] salt@[i]),
{
    SaltString::generate(&mut OsRng).as_str().as_bytes().to_vec()
}

/// A random 12-byte nonce for AES-GCM, from `rand::thread_rng().fill_bytes`.
/// Trusted: nothing is claimed of the bytes.
#[verifier::external_body]
pub fn generate_nonce() -> (nonce: [u8; 12]) {
    let mut nonce = [0u8; 12];
    rand::thread_rng().fill_bytes(&mut nonce);
    nonce
}

// ---------------------------------------------------------------------------
// The library's operations

/// What `derive_key` promises of its result.
pub open spec fn derive_outcome(password: Seq<char>, salt: Seq<u8>, params: Argon2Params, r: Result<SecretBytes, VaultError>) -> bool {
    match r {
        Ok(k) => derived_key(vstd::utf8::encode_utf8(password), salt, params) == Some(secret_bytes(k))
            && secret_bytes(k).len() == KEY_LEN,
        Err(e) => derived_key(vstd::utf8::encode_utf8(password), salt, params) is None
            && (e matches VaultError::CryptoError(m) && starts_with(m@, kdf_error_prefix(salt, params))),
    }
}

/// Whether `derive_key` would panic on a salt of this length with these
/// parameters (see `kdf_panics`); callers test this before deriving.
pub fn kdf_would_panic(salt_len: usize, params: Argon2Params) -> (r: bool)
    ensures
        r == kdf_panics(salt_len as nat, params),
{
    let m = params.memory_cost_kib as u64;
    let t = params.iterations;
    let p = params.parallelism as u64;
    let costs_ok = m >= 8 && m >= 8 * p && t >= 1 && 1 <= p && p <= 0xFFFFFF;
    (m >= 8 && 8 * p > 0xFFFF_FFFF) || (costs_ok && salt_len < 3)
}

/// Law (the same password and salt give the same key): two derivations with equal
/// arguments both fail, or both give the same key bytes.
pub proof fn lemma_derivation_is_deterministic(
    password: Seq<char>,
    salt: Seq<u8>,
    params: Argon2Params,
    first: Result<SecretBytes, VaultError>,
    second: Result<SecretBytes, VaultError>,
)
    requires
        derive_outcome(password, salt, params, first),
        derive_outcome(password, salt, params, second),
    ensures
        first is Ok <==> second is Ok,
        first is Ok ==> secret_bytes(first->Ok_0) == secret_bytes(second->Ok_0),
{
}

/// Derives a 32-byte key from the master password with Argon2id.
pub fn derive_key(password: &str, salt: &[u8], params: Argon2Params) -> (r: Result<SecretBytes, VaultError>)
    requires
        !kdf_panics(salt@.len(), params),
    ensures
        derive_outcome(password@, salt@, params, r),
{
    let pw = password.as_bytes();
    match argon2id_derive(pw, salt, params.memory_cost_kib, params.iterations, params.parallelism) {
        Ok(k) => Ok(zeroizing(k)),
        Err(KdfFailure::Params(m)) => {
            let mut msg = "Failed to create Argon2 params: ".to_string();
            msg.append(m.as_str());
            proof { lemma_prefix_of_concat("Failed to create Argon2 params: "@, m@); }
            Err(VaultError::CryptoError(msg))
        },
        Err(KdfFailure::SaltEncoding(m)) => {
            let mut msg = "Invalid salt: ".to_string();
            msg.append(m.as_str());
            proof { lemma_prefix_of_concat("Invalid salt: "@, m@); }
            Err(VaultError::CryptoError(msg))
        },
        Err(KdfFailure::Hash(m)) => {
            let mut msg = "Key derivation failed: ".to_string();
            msg.append(m.as_str());
            proof { lemma_prefix_of_concat("Key derivation failed: "@, m@); }
            Err(VaultError::CryptoError(msg))
        },
        Err(KdfFailure::NoHash) => Err(VaultError::CryptoError("No hash produced".to_string())),
    }
}

/// What `encrypt_data` promises of its result.
pub open spec fn encrypt_outcome(key: Seq<u8>, nonce: Seq<u8>, plaintext: Seq<u8>, r: Result<Vec<u8>, VaultError>) -> bool {
    match r {
        Ok(c) => key.len() == KEY_LEN && plaintext.len() <= GCM_MAX_PLAINTEXT
            && c@ == aes256gcm_seal(key, nonce, plaintext) && c@.len() == plaintext.len() + GCM_TAG_LEN,
        Err(e) => if key.len() != KEY_LEN {
            e matches VaultError::CryptoError(m) && m@ == "Key must be 32 bytes"@
        } else {
            plaintext.len() > GCM_MAX_PLAINTEXT
                && (e matches VaultError::CryptoError(m) && starts_with(m@, "Encryption failed: "@))
        },
    }
}

/// What `decrypt_data` promises of its result.
pub open spec fn decrypt_outcome(key: Seq<u8>, nonce: Seq<u8>, ciphertext: Seq<u8>, r: Result<Vec<u8>, VaultError>) -> bool {
    &&& key.len() != KEY_LEN ==> (r matches Err(VaultError::CryptoError(m)) && m@ == "Key must be 32 bytes"@)
    &&& key.len() == KEY_LEN ==> (r is Ok || r matches Err(VaultError::InvalidMasterPassword))
    &&& r matches Ok(p) ==> aes256gcm_seal(key, nonce, p@) == ciphertext
    &&& forall|p: Seq<u8>|
        key.len() == KEY_LEN && p.len() <= GCM_MAX_PLAINTEXT && #[trigger] aes256gcm_seal(key, nonce, p) == ciphertext
            ==> (r matches Ok(q) && q@ == p)
}

/// Encrypts with AES-256-GCM. The key must be 32 bytes.
pub fn encrypt_data(key: &[u8], nonce: &[u8; 12], plaintext: &[u8]) -> (r: Result<Vec<u8>, VaultError>)
    ensures
        encrypt_outcome(key@, nonce@, plaintext@, r),
{
    if key.len() != KEY_LEN {
        return Err(VaultError::CryptoError("Key must be 32 bytes".to_string()));
    }
    match aes256gcm_encrypt(key, nonce, plaintext) {
        Ok(c) => Ok(c),
        Err(m) => {
            let mut msg = "Encryption failed: ".to_string();
            msg.append(m.as_str());
            proof { lemma_prefix_of_concat("Encryption failed: "@, m@); }
            Err(VaultError::CryptoError(msg))
        },
    }
}

/// Decrypts with AES-256-GCM. A refused tag (wrong key, or altered data) is
/// reported as a wrong master password.
pub fn decrypt_data(key: &[u8], nonce: &[u8; 12], ciphertext: &[u8]) -> (r: Result<Vec<u8>, VaultError>)
    ensures
        decrypt_outcome(key@, nonce@, ciphertext@, r),
{
    if key.len() != KEY_LEN {
        return Err(VaultError::CryptoError("Key must be 32 bytes".to_string()));
    }
    match aes256gcm_decrypt(key, nonce, ciphertext) {
        Some(p) => Ok(p),
        None => Err(VaultError::InvalidMasterPassword),
    }
}

/// Law (encryption round trip): whatever `encrypt_data` returns as a ciphertext,
/// `decrypt_data` with the same key and nonce can only answer with the plaintext that was sealed.
pub proof fn lemma_decrypt_inverts_encrypt(
    key: Seq<u8>,
    nonce: Seq<u8>,
    plaintext: Seq<u8>,
    sealed: Result<Vec<u8>, VaultError>,
    opened: Result<Vec<u8>, VaultError>,
)
    requires
        encrypt_outcome(key, nonce, plaintext, sealed),
        sealed is Ok,
        decrypt_outcome(key, nonce, sealed->Ok_0@, opened),
    ensures
        opened matches Ok(p) && p@ == plaintext,
{
}

} // verus!
