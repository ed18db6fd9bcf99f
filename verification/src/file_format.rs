//! The vault file: the magic bytes, the header that says how the payload was
//! sealed, the sealed payload, and the naming and rotation of backups.
//!
//! On disk a vault file is `MAGIC` followed by a JSON document holding the header
//! and the ciphertext; the JSON encoding of the header and of the vault itself is
//! done by the application around this library.
use vstd::prelude::*;
use crate::crypto::{
    aes256gcm_seal, decrypt_data, default_params, derive_key, derived_key, encrypt_data,
    generate_nonce, generate_salt, is_b64_byte, kdf_panics, secret_slice, Argon2Params,
    GCM_MAX_PLAINTEXT, SALT_LEN,
};
use crate::error::VaultError;
use crate::vault::now_timestamp;
use crate::text::{ends_with, starts_with};
use vstd::relations::injective_on;
use vstd::set_lib::{lemma_int_range, lemma_map_size, lemma_subset_equality, set_int_range};

verus! {

/// The bytes `RUSTPW01` that open every vault file.
pub const MAGIC: [u8; 8] = [82, 85, 83, 84, 80, 87, 48, 49];

/// The version of the file format written by this library.
pub const FORMAT_VERSION: u16 = 1;

/// The magic bytes as a sequence.
pub open spec fn magic() -> Seq<u8> {
    seq![82u8, 85u8, 83u8, 84u8, 80u8, 87u8, 48u8, 49u8]
}

/// How the payload of a vault file was sealed.
#[derive(Debug, Clone)]
pub struct VaultFileHeader {
    pub version: u16,
    pub argon2_memory_kib: u32,
    pub argon2_iterations: u32,
    pub argon2_parallelism: u32,
    /// Salt for the key derivation.
    pub salt: Vec<u8>,
    /// Nonce for AES-GCM.
    pub nonce: [u8; 12],
}

/// The Argon2 parameters a header records.
pub open spec fn header_params(h: VaultFileHeader) -> Argon2Params {
    Argon2Params {
        memory_cost_kib: h.argon2_memory_kib,
        iterations: h.argon2_iterations,
        parallelism: h.argon2_parallelism,
    }
}

/// The key a header and master password lead to, if Argon2 derives one.
pub open spec fn header_key(h: VaultFileHeader, password: Seq<char>) -> Option<Seq<u8>> {
    derived_key(vstd::utf8::encode_utf8(password), h.salt@, header_params(h))
}

/// `ciphertext` is `plaintext` sealed under the header and master password.
pub open spec fn sealed_under(h: VaultFileHeader, password: Seq<char>, plaintext: Seq<u8>, ciphertext: Seq<u8>) -> bool {
    &&& h.version == FORMAT_VERSION
    &&& header_key(h, password) is Some
    &&& plaintext.len() <= GCM_MAX_PLAINTEXT
    &&& aes256gcm_seal(header_key(h, password)->Some_0, h.nonce@, plaintext) == ciphertext
}

/// A header as `VaultFileHeader::new` makes it for the given parameters.
pub open spec fn fresh_header(h: VaultFileHeader, params: Argon2Params) -> bool {
    &&& h.version == FORMAT_VERSION
    &&& header_params(h) == params
    &&& h.salt@.len() == SALT_LEN
    &&& forall|i: int| 0 <= i < h.salt@.len() ==> is_b64_byte(#[trigger] h.salt@[i])
}

impl VaultFileHeader {
    /// A header for the current format version, with a fresh random salt and nonce.
    pub fn new(params: Argon2Params) -> (h: Self)
        ensures
            fresh_header(h, params),
    {
        VaultFileHeader {
            version: FORMAT_VERSION,
            argon2_memory_kib: params.memory_cost_kib,
            argon2_iterations: params.iterations,
            argon2_parallelism: params.parallelism,
            salt: generate_salt(),
            nonce: generate_nonce(),
        }
    }

    /// The Argon2 parameters recorded in the header.
    pub fn get_argon2_params(&self) -> (p: Argon2Params)
        ensures
            p == header_params(*self),
    {
        Argon2Params {
            memory_cost_kib: self.argon2_memory_kib,
            iterations: self.argon2_iterations,
            parallelism: self.argon2_parallelism,
        }
    }
}

/// Law: the parameters a new header is made with are the ones it gives back.
pub proof fn lemma_header_keeps_params(h: VaultFileHeader, params: Argon2Params)
    requires
        fresh_header(h, params),
    ensures
        header_params(h) == params,
{
}

/// Prefixes the JSON body of a vault file with the magic bytes.
pub fn frame_vault_file(body: &[u8]) -> (content: Vec<u8>)
    ensures
        content@ == magic() + body@,
{
    let mut content: Vec<u8> = Vec::new();
    let mut i: usize = 0;
    while i < 8
        invariant
            i <= 8,
            content@ == magic().subrange(0, i as int),
        decreases 8 - i,
    {
        content.push(MAGIC[i]);
        i += 1;
        assert(content@ =~= magic().subrange(0, i as int));
    }
    let mut j: usize = 0;
    while j < body.len()
        invariant
            j <= body@.len(),
            content@ == magic() + body@.subrange(0, j as int),
        decreases body@.len() - j,
    {
        content.push(body[j]);
        j += 1;
        assert(content@ =~= magic() + body@.subrange(0, j as int));
    }
    assert(body@.subrange(0, body@.len() as int) =~= body@);
    content
}

/// Checks the magic bytes of a vault file's content and returns the rest, the JSON body.
pub fn unframe_vault_file(content: &[u8]) -> (r: Result<Vec<u8>, VaultError>)
    ensures
        match r {
            Ok(body) => content@.len() >= 8 && content@.subrange(0, 8) == magic()
                && body@ == content@.subrange(8, content@.len() as int),
            Err(e) => e is InvalidFormat && !(content@.len() >= 8 && content@.subrange(0, 8) == magic()),
        },
{
    if content.len() < 8 {
        return Err(VaultError::InvalidFormat);
    }
    let mut i: usize = 0;
    while i < 8
        invariant
            content@.len() >= 8,
            i <= 8,
            forall|k: int| 0 <= k < i ==> content@[k] == magic()[k],
        decreases 8 - i,
    {
        if content[i] != MAGIC[i] {
            assert(content@.subrange(0, 8)[i as int] != magic()[i as int]);
            return Err(VaultError::InvalidFormat);
        }
        i += 1;
    }
    assert(content@.subrange(0, 8) =~= magic());
    let mut body: Vec<u8> = Vec::new();
    let mut j: usize = 8;
    while j < content.len()
        invariant
            8 <= j <= content@.len(),
            body@ == content@.subrange(8, j as int),
        decreases content@.len() - j,
    {
        body.push(content[j]);
        j += 1;
        assert(body@ =~= content@.subrange(8, j as int));
    }
    Ok(body)
}

/// Law: the framing of a body is read back as that body.
pub proof fn lemma_frame_roundtrip(body: Seq<u8>)
    ensures
        (magic() + body).len() >= 8,
        (magic() + body).subrange(0, 8) == magic(),
        (magic() + body).subrange(8, (magic() + body).len() as int) == body,
{
    assert((magic() + body).subrange(0, 8) =~= magic());
    assert((magic() + body).subrange(8, (magic() + body).len() as int) =~= body);
}

/// What `seal_vault_payload` promises of its result.
pub open spec fn seal_outcome(password: Seq<char>, plaintext: Seq<u8>, r: Result<(VaultFileHeader, Vec<u8>), VaultError>) -> bool {
    match r {
        Ok((h, c)) => fresh_header(h, default_params()) && sealed_under(h, password, plaintext, c@),
        Err(e) => (vstd::utf8::encode_utf8(password).len() > 0xFFFF_FFFF || plaintext.len() > GCM_MAX_PLAINTEXT)
            && e is CryptoError,
    }
}

/// Seals the serialized vault for a new file: a fresh header with the default
/// Argon2 parameters, the key derived from the master password, and the
/// plaintext encrypted under that key and the header's nonce.
pub fn seal_vault_payload(plaintext: &[u8], master_password: &str) -> (r: Result<(VaultFileHeader, Vec<u8>), VaultError>)
    ensures
        seal_outcome(master_password@, plaintext@, r),
{
    let header = VaultFileHeader::new(Argon2Params::default());
    let key = match derive_key(master_password, header.salt.as_slice(), header.get_argon2_params()) {
        Ok(k) => k,
        Err(e) => {
            return Err(e);
        },
    };
    match encrypt_data(secret_slice(&key), &header.nonce, plaintext) {
        Ok(c) => Ok((header, c)),
        Err(e) => Err(e),
    }
}

/// What `open_vault_payload` promises of its result.
pub open spec fn open_outcome(h: VaultFileHeader, password: Seq<char>, ciphertext: Seq<u8>, r: Result<Vec<u8>, VaultError>) -> bool {
    if h.version != FORMAT_VERSION {
        r matches Err(VaultError::InvalidFormat)
    } else if header_key(h, password) is None {
        r matches Err(VaultError::CryptoError(_))
    } else {
        &&& (r is Ok || r matches Err(VaultError::InvalidMasterPassword))
        &&& r matches Ok(p) ==> aes256gcm_seal(header_key(h, password)->Some_0, h.nonce@, p@) == ciphertext
        &&& forall|p: Seq<u8>| #[trigger] sealed_under(h, password, p, ciphertext) ==> (r matches Ok(q) && q@ == p)
    }
}

/// Opens the payload of a vault file: checks the format version, derives the key
/// from the master password with the header's parameters and salt, and decrypts.
/// A refused tag means a wrong master password (or an altered file).
pub fn open_vault_payload(header: &VaultFileHeader, ciphertext: &[u8], master_password: &str) -> (r: Result<Vec<u8>, VaultError>)
    requires
        header.version == FORMAT_VERSION ==> !kdf_panics(header.salt@.len(), header_params(*header)),
    ensures
        open_outcome(*header, master_password@, ciphertext@, r),
{
    if header.version != FORMAT_VERSION {
        return Err(VaultError::InvalidFormat);
    }
    let key = match derive_key(master_password, header.salt.as_slice(), header.get_argon2_params()) {
        Ok(k) => k,
        Err(e) => {
            return Err(e);
        },
    };
    decrypt_data(secret_slice(&key), &header.nonce, ciphertext)
}

/// Law (the vault file round trip, with the right password): whatever
/// `seal_vault_payload` returns, `open_vault_payload` on that header and
/// ciphertext with the same master password gives back the plaintext.
pub proof fn lemma_open_inverts_seal(
    password: Seq<char>,
    plaintext: Seq<u8>,
    sealed: Result<(VaultFileHeader, Vec<u8>), VaultError>,
    opened: Result<Vec<u8>, VaultError>,
)
    requires
        seal_outcome(password, plaintext, sealed),
        sealed is Ok,
        open_outcome(sealed->Ok_0.0, password, sealed->Ok_0.1@, opened),
    ensures
        opened matches Ok(p) && p@ == plaintext,
{
    let h = sealed->Ok_0.0;
    let c = sealed->Ok_0.1@;
    assert(sealed_under(h, password, plaintext, c));
}

/// Law: a fresh header can always be opened without a panic, and a master password
/// of at most 2^32 - 1 bytes always derives a key from it.
pub proof fn lemma_fresh_header_derives(h: VaultFileHeader, password: Seq<char>)
    requires
        fresh_header(h, default_params()),
        vstd::utf8::encode_utf8(password).len() <= 0xFFFF_FFFF,
    ensures
        !kdf_panics(h.salt@.len(), header_params(h)),
        header_key(h, password) is Some,
{
}

// ---------------------------------------------------------------------------
// Backups

/// The base name of backups: the vault file's stem, or `vault` if it has none.
pub open spec fn backup_base(stem: Option<Seq<char>>) -> Seq<char> {
    match stem {
        Some(s) => s,
        None => "vault"@,
    }
}

/// The characters of an optional stem.
pub open spec fn stem_chars(stem: Option<&str>) -> Option<Seq<char>> {
    match stem {
        Some(s) => Some(s@),
        None => None,
    }
}

/// The file name of a timestamped backup: `<stem>.<timestamp>.bak`.
pub fn backup_file_name(stem: Option<&str>, timestamp: &str) -> (name: String)
    ensures
        name@ == backup_base(stem_chars(stem)) + "."@ + timestamp@ + ".bak"@,
{
    let mut name = match stem {
        Some(s) => s.to_string(),
        None => "vault".to_string(),
    };
    name.append(".");
    name.append(timestamp);
    name.append(".bak");
    name
}

/// What `chrono` writes for the UTC time `t` (Unix seconds) with a strftime format:
/// `DateTime::from_timestamp(t, 0)` formatted with it, or the empty text where
/// chrono has no such time.
pub uninterp spec fn utc_text(t: i64, fmt: Seq<char>) -> Seq<char>;

/// The format of backup timestamps: `YYYYMMDD_HHMMSS`.
pub open spec fn stamp_format() -> Seq<char> {
    "%Y%m%d_%H%M%S"@
}

/// The last second of the year 9999, in Unix seconds; up to it chrono writes
/// the year with four digits.
pub const LAST_SECOND_OF_9999: i64 = 253402300799;

/// Whether a character is an ASCII digit.
pub open spec fn is_digit(c: char) -> bool {
    '0' <= c <= '9'
}

/// Whether a text has the shape `YYYYMMDD_HHMMSS`.
pub open spec fn is_stamp(s: Seq<char>) -> bool {
    &&& s.len() == 15
    &&& s[8] == '_'
    &&& forall|i: int| 0 <= i < 15 && i != 8 ==> is_digit(#[trigger] s[i])
}

/// Trusted: `chrono::DateTime::from_timestamp(t, 0)` then `format(fmt).to_string()`.
/// The text is named `utc_text`; also claimed, from chrono's formatting code: for
/// times from 1970 to the end of 9999, `%Y` gives four digits and `%m %d %H %M %S`
/// two each, so the backup format gives `YYYYMMDD_HHMMSS`. Only that format is
/// accepted, since a format chrono cannot write makes `to_string` panic.
#[verifier::external_body]
fn format_utc(t: i64, fmt: &str) -> (s: String)
    requires
        fmt@ == stamp_format(),
    ensures
        s@ == utc_text(t, fmt@),
        0 <= t <= LAST_SECOND_OF_9999 ==> is_stamp(s@),
{
    match chrono::DateTime::from_timestamp(t, 0) {
        Some(d) => d.format(fmt).to_string(),
        None => String::new(),
    }
}

/// The timestamp of a backup taken now: the current UTC time written
/// `YYYYMMDD_HHMMSS` (for any time up to the end of the year 9999).
pub fn backup_timestamp() -> (s: String)
    ensures
        exists|t: i64| t >= 0 && #[trigger] utc_text(t, stamp_format()) == s@ && (t <= LAST_SECOND_OF_9999 ==> is_stamp(s@)),
{
    let t = now_timestamp();
    let s = backup_timestamp_at(t);
    assert(utc_text(t, stamp_format()) == s@);
    s
}

/// The timestamp of a backup taken at the UTC time `t` (Unix seconds), written
/// `YYYYMMDD_HHMMSS` for any time from 1970 to the end of the year 9999.
pub fn backup_timestamp_at(t: i64) -> (s: String)
    ensures
        s@ == utc_text(t, stamp_format()),
        0 <= t <= LAST_SECOND_OF_9999 ==> is_stamp(s@),
{
    let fmt = "%Y%m%d_%H%M%S";
    proof {
        reveal_strlit("%Y%m%d_%H%M%S");
    }
    format_utc(t, fmt)
}

/// Whether a file name is one of the vault's backups: it begins with the base
/// name and ends with `.bak`.
pub fn is_backup_name(name: &str, base: &str) -> (r: bool)
    ensures
        r == (starts_with(name@, base@) && ends_with(name@, ".bak"@)),
{
    let n = name.unicode_len();
    let b = base.unicode_len();
    if b > n {
        return false;
    }
    let mut i: usize = 0;
    while i < b
        invariant
            n == name@.len(),
            b == base@.len(),
            b <= n,
            i <= b,
            forall|k: int| 0 <= k < i ==> name@[k] == base@[k],
        decreases b - i,
    {
        if name.get_char(i) != base.get_char(i) {
            assert(name@.subrange(0, b as int)[i as int] != base@[i as int]);
            return false;
        }
        i += 1;
    }
    assert(name@.subrange(0, b as int) =~= base@);
    let suffix = ".bak";
    proof {
        reveal_strlit(".bak");
    }
    let s = suffix.unicode_len();
    if s > n {
        return false;
    }
    let mut k: usize = 0;
    while k < s
        invariant
            n == name@.len(),
            s == suffix@.len(),
            suffix@ == ".bak"@,
            s <= n,
            k <= s,
            forall|t: int| 0 <= t < k ==> name@[n - s + t] == suffix@[t],
            starts_with(name@, base@),
        decreases s - k,
    {
        if name.get_char(n - s + k) != suffix.get_char(k) {
            assert(name@.subrange(n - s, n as int)[k as int] != suffix@[k as int]);
            return false;
        }
        k += 1;
    }
    assert(name@.subrange(n - s, n as int) =~= suffix@);
    true
}

/// Whether backup `j` comes before backup `i` when sorted newest first (a stable
/// sort: equal times keep their listed order).
pub open spec fn newer_or_earlier(times: Seq<i128>, j: int, i: int) -> bool {
    times[j] > times[i] || (times[j] == times[i] && j < i)
}

/// How many of the first `k` backups come before backup `i`.
pub open spec fn rank_among(times: Seq<i128>, i: int, k: int) -> nat
    decreases k,
{
    if k <= 0 {
        0
    } else if newer_or_earlier(times, k - 1, i) {
        rank_among(times, i, k - 1) + 1
    } else {
        rank_among(times, i, k - 1)
    }
}

/// The position of backup `i` when all backups are sorted newest first.
pub open spec fn rank(times: Seq<i128>, i: int) -> nat {
    rank_among(times, i, times.len() as int)
}

/// Which backups rotation deletes: given the modification time of each backup
/// (in nanoseconds from the Unix epoch), marks those that come after the
/// `keep_count` newest ones.
pub fn stale_backups(times: &[i128], keep_count: usize) -> (stale: Vec<bool>)
    ensures
        stale@.len() == times@.len(),
        forall|i: int| 0 <= i < times@.len() ==> #[trigger] stale@[i] == (rank(times@, i) >= keep_count),
{
    let n = times.len();
    let mut stale: Vec<bool> = Vec::new();
    let mut i: usize = 0;
    while i < n
        invariant
            n == times@.len(),
            i <= n,
            stale@.len() == i,
            forall|t: int| 0 <= t < i ==> #[trigger] stale@[t] == (rank(times@, t) >= keep_count),
        decreases n - i,
    {
        let mut count: usize = 0;
        let mut j: usize = 0;
        while j < n
            invariant
                n == times@.len(),
                i < n,
                j <= n,
                count == rank_among(times@, i as int, j as int),
                count <= j,
            decreases n - j,
        {
            if times[j] > times[i] || (times[j] == times[i] && j < i) {
                count += 1;
            }
            j += 1;
        }
        stale.push(count >= keep_count);
        i += 1;
    }
    stale
}

/// A backup that comes before another one in the newest-first order comes before
/// everything that one comes before, and that one itself.
proof fn lemma_rank_monotone(times: Seq<i128>, i: int, j: int, k: int)
    requires
        0 <= i < times.len(),
        0 <= j < times.len(),
        0 <= k <= times.len(),
        newer_or_earlier(times, i, j),
    ensures
        rank_among(times, j, k) >= rank_among(times, i, k) + (if i < k { 1int } else { 0int }),
    decreases k,
{
    if k > 0 {
        lemma_rank_monotone(times, i, j, k - 1);
    }
}

/// Law (rotation keeps the newest): a backup that rotation keeps is at least as
/// new as any backup it deletes.
pub proof fn lemma_rotation_keeps_newest(times: Seq<i128>, keep_count: nat, kept: int, removed: int)
    requires
        0 <= kept < times.len(),
        0 <= removed < times.len(),
        rank(times, kept) < keep_count,
        rank(times, removed) >= keep_count,
    ensures
        times[kept] >= times[removed],
{
    if times[kept] < times[removed] {
        lemma_rank_monotone(times, removed, kept, times.len() as int);
    }
}

/// A backup never comes before itself, so it has fewer than `k` backups before it
/// among the first `k` when it is one of them.
proof fn lemma_rank_bound(times: Seq<i128>, i: int, k: int)
    requires
        0 <= k <= times.len(),
        0 <= i < times.len(),
    ensures
        rank_among(times, i, k) <= k,
        i < k ==> rank_among(times, i, k) < k,
    decreases k,
{
    if k > 0 {
        lemma_rank_bound(times, i, k - 1);
    }
}

/// Two different backups have different positions in the newest-first order.
proof fn lemma_rank_injective(times: Seq<i128>, i: int, j: int)
    requires
        0 <= i < times.len(),
        0 <= j < times.len(),
        i != j,
    ensures
        rank(times, i) != rank(times, j),
{
    if newer_or_earlier(times, i, j) {
        lemma_rank_monotone(times, i, j, times.len() as int);
    } else {
        lemma_rank_monotone(times, j, i, times.len() as int);
    }
}

/// The backups rotation keeps.
pub open spec fn kept_backups(times: Seq<i128>, keep_count: nat) -> Set<int> {
    set_int_range(0, times.len() as int).filter(|i: int| rank(times, i) < keep_count)
}

/// Law (rotation keeps as many as asked): of `n` backups, rotation keeps
/// `min(keep_count, n)`.
pub proof fn lemma_rotation_keeps_count(times: Seq<i128>, keep_count: nat)
    ensures
        kept_backups(times, keep_count).finite(),
        kept_backups(times, keep_count).len() == if keep_count < times.len() { keep_count } else { times.len() },
{
    let n = times.len() as int;
    let all = set_int_range(0, n);
    let f = |i: int| rank(times, i) as int;
    lemma_int_range(0, n);
    assert forall|a: int, b: int| all.contains(a) && all.contains(b) && #[trigger] f(a) == #[trigger] f(b) implies a == b by {
        if a != b {
            lemma_rank_injective(times, a, b);
        }
    }
    assert(injective_on(f, all));
    let image = all.map(f);
    lemma_map_size(all, image, f);
    assert forall|r: int| image.contains(r) implies set_int_range(0, n).contains(r) by {
        let a = choose|a: int| all.contains(a) && f(a) == r;
        lemma_rank_bound(times, a, n);
    }
    lemma_subset_equality(image, set_int_range(0, n));
    let m = if keep_count < n { keep_count as int } else { n };
    let kept = kept_backups(times, keep_count);
    assert(kept.subset_of(all));
    vstd::set_lib::lemma_len_subset(kept, all);
    lemma_int_range(0, m);
    assert forall|a: int, b: int| kept.contains(a) && kept.contains(b) && #[trigger] f(a) == #[trigger] f(b) implies a == b by {
        if a != b {
            lemma_rank_injective(times, a, b);
        }
    }
    assert forall|r: int| #[trigger] kept.map(f).contains(r) <==> set_int_range(0, m).contains(r) by {
        if set_int_range(0, m).contains(r) {
            assert(image.contains(r));
            let a = choose|a: int| all.contains(a) && f(a) == r;
            assert(kept.contains(a));
        }
        if kept.map(f).contains(r) {
            let a = choose|a: int| kept.contains(a) && f(a) == r;
            lemma_rank_bound(times, a, n);
        }
    }
    assert(kept.map(f) =~= set_int_range(0, m));
    lemma_map_size(kept, set_int_range(0, m), f);
}

} // verus!
