//! The vault: its entries and the operations on them.
use vstd::prelude::*;
use zeroize::Zeroizing;
use crate::text::{chars_of, contains_chars, is_substring, lowercase_chars, to_lowercase};

verus! {

/// Trusted: `chrono::Utc::now().timestamp()`, the current Unix time in seconds.
/// `Utc::now` panics when the system clock is before the Unix epoch; otherwise
/// the value is not negative. Nothing else is claimed: it is the clock.
#[verifier::external_body]
pub(crate) fn now_timestamp() -> (t: i64)
    ensures
        t >= 0,
{
    chrono::Utc::now().timestamp()
}

/// Whether a 128-bit id carries the marks of a random (version 4, RFC 4122
/// variant) UUID.
pub open spec fn is_v4_uuid(id: u128) -> bool {
    (id >> 76u128) & 0xF == 4 && (id >> 62u128) & 0x3 == 2
}

/// Trusted: `uuid::Uuid::new_v4().as_u128()`. Claimed, from the crate's source
/// (`new_v4` masks in the version and variant bits): the version nibble is 4 and the
/// variant bits are `10`. The other bits are chance.
#[verifier::external_body]
pub(crate) fn new_uuid_v4() -> (id: u128)
    ensures
        is_v4_uuid(id),
{
    uuid::Uuid::new_v4().as_u128()
}

/// One account stored in the vault. The id is the UUID's 128-bit value.
#[derive(Debug, Clone)]
pub struct VaultEntry {
    pub id: u128,
    pub service_name: String,
    pub username: String,
    pub password: String,
    pub url: Option<String>,
    pub notes: Option<String>,
    pub tags: Vec<String>,
    pub created_at: i64,
    pub updated_at: i64,
}

impl VaultEntry {
    /// Sets the update time to now; nothing else changes.
    pub fn touch(&mut self)
        ensures
            final(self).updated_at >= 0,
            *final(self) == (VaultEntry { updated_at: final(self).updated_at, ..*old(self) }),
    {
        self.updated_at = now_timestamp();
    }

    /// A new entry with a fresh random id, created and updated now.
    pub fn new(
        service_name: String,
        username: String,
        password: String,
        url: Option<String>,
        notes: Option<String>,
        tags: Vec<String>,
    ) -> (e: Self)
        ensures
            e.service_name == service_name,
            e.username == username,
            e.password == password,
            e.url == url,
            e.notes == notes,
            e.tags == tags,
            is_v4_uuid(e.id),
            e.created_at == e.updated_at,
            e.created_at >= 0,
    {
        let now = now_timestamp();
        VaultEntry {
            id: new_uuid_v4(),
            service_name,
            username,
            password,
            url,
            notes,
            tags,
            created_at: now,
            updated_at: now,
        }
    }
}

/// The vault: all entries, in the order they were added.
#[derive(Debug, Clone)]
pub struct Vault {
    pub entries: Vec<VaultEntry>,
    pub created_at: i64,
    pub updated_at: i64,
}

/// Some entry has the id.
pub open spec fn has_id(entries: Seq<VaultEntry>, id: u128) -> bool {
    exists|i: int| 0 <= i < entries.len() && (#[trigger] entries[i]).id == id
}

/// `i` is the first position that holds the id.
pub open spec fn is_first_with_id(entries: Seq<VaultEntry>, id: u128, i: int) -> bool {
    &&& 0 <= i < entries.len()
    &&& entries[i].id == id
    &&& forall|j: int| 0 <= j < i ==> (#[trigger] entries[j]).id != id
}

/// The first position that holds the id (meaningful where `has_id`).
pub open spec fn first_index(entries: Seq<VaultEntry>, id: u128) -> int {
    choose|i: int| is_first_with_id(entries, id, i)
}

/// A text matches a lowercased query when the query occurs in the text's lowercase form.
pub open spec fn text_matches(text: Seq<char>, query_lower: Seq<char>) -> bool {
    is_substring(query_lower, lowercase_chars(text))
}

/// An entry matches a lowercased query through its service name, its username or one of its tags.
pub open spec fn entry_matches(e: VaultEntry, query_lower: Seq<char>) -> bool {
    ||| text_matches(e.service_name@, query_lower)
    ||| text_matches(e.username@, query_lower)
    ||| exists|k: int| 0 <= k < e.tags@.len() && text_matches((#[trigger] e.tags@[k])@, query_lower)
}

/// The predicate `search` filters the entries with.
pub open spec fn matcher(query_lower: Seq<char>) -> spec_fn(VaultEntry) -> bool {
    |e: VaultEntry| entry_matches(e, query_lower)
}

/// Whether a text matches a lowercased query.
pub(crate) fn text_matches_query(text: &str, query_lower: &[char]) -> (r: bool)
    ensures
        r == text_matches(text@, query_lower@),
{
    let lowered = to_lowercase(text);
    let chars = chars_of(lowered.as_str());
    contains_chars(chars.as_slice(), query_lower)
}

/// Whether an entry matches a lowercased query.
pub(crate) fn entry_matches_query(e: &VaultEntry, query_lower: &[char]) -> (r: bool)
    ensures
        r == entry_matches(*e, query_lower@),
{
    if text_matches_query(e.service_name.as_str(), query_lower) {
        return true;
    }
    if text_matches_query(e.username.as_str(), query_lower) {
        return true;
    }
    let mut k: usize = 0;
    while k < e.tags.len()
        invariant
            k <= e.tags@.len(),
            !text_matches(e.service_name@, query_lower@),
            !text_matches(e.username@, query_lower@),
            forall|t: int| 0 <= t < k ==> !text_matches((#[trigger] e.tags@[t])@, query_lower@),
        decreases e.tags@.len() - k,
    {
        if text_matches_query(e.tags[k].as_str(), query_lower) {
            assert(text_matches(e.tags@[k as int]@, query_lower@));
            return true;
        }
        k += 1;
    }
    false
}

impl Vault {
    /// An empty vault, created and updated now.
    pub fn new() -> (v: Self)
        ensures
            v.entries@.len() == 0,
            v.created_at == v.updated_at,
            v.created_at >= 0,
    {
        let now = now_timestamp();
        Vault { entries: Vec::new(), created_at: now, updated_at: now }
    }

    /// Appends an entry and sets the update time to now.
    pub fn add_entry(&mut self, entry: VaultEntry)
        ensures
            final(self).entries@ == old(self).entries@.push(entry),
            final(self).created_at == old(self).created_at,
            final(self).updated_at >= 0,
    {
        self.entries.push(entry);
        self.updated_at = now_timestamp();
    }

    /// The position of the first entry with the id, if any.
    fn position(&self, id: u128) -> (r: Option<usize>)
        ensures
            match r {
                Some(i) => has_id(self.entries@, id) && i == first_index(self.entries@, id)
                    && is_first_with_id(self.entries@, id, i as int),
                None => !has_id(self.entries@, id),
            },
    {
        let mut i: usize = 0;
        while i < self.entries.len()
            invariant
                i <= self.entries@.len(),
                forall|j: int| 0 <= j < i ==> (#[trigger] self.entries@[j]).id != id,
            decreases self.entries@.len() - i,
        {
            if self.entries[i].id == id {
                proof {
                    lemma_first_index_unique(self.entries@, id, i as int);
                }
                return Some(i);
            }
            i += 1;
        }
        None
    }

    /// Removes the first entry with the id and returns it, setting the update time
    /// to now; leaves the vault as it is if no entry has the id.
    pub fn remove_entry(&mut self, id: &u128) -> (r: Option<VaultEntry>)
        ensures
            match r {
                Some(e) => has_id(old(self).entries@, *id)
                    && e == old(self).entries@[first_index(old(self).entries@, *id)]
                    && final(self).entries@ == old(self).entries@.remove(first_index(old(self).entries@, *id))
                    && final(self).created_at == old(self).created_at
                    && final(self).updated_at >= 0,
                None => !has_id(old(self).entries@, *id) && *final(self) == *old(self),
            },
    {
        match self.position(*id) {
            Some(pos) => {
                self.updated_at = now_timestamp();
                Some(self.entries.remove(pos))
            },
            None => None,
        }
    }

    /// The first entry with the id, if any.
    pub fn get_entry(&self, id: &u128) -> (r: Option<&VaultEntry>)
        ensures
            match r {
                Some(e) => has_id(self.entries@, *id) && *e == self.entries@[first_index(self.entries@, *id)],
                None => !has_id(self.entries@, *id),
            },
    {
        match self.position(*id) {
            Some(pos) => Some(&self.entries[pos]),
            None => None,
        }
    }

    /// The first entry with the id, to change in place.
    pub fn get_entry_mut(&mut self, id: &u128) -> (r: Option<&mut VaultEntry>)
        ensures
            match r {
                Some(e) => has_id(old(self).entries@, *id)
                    && *e == old(self).entries@[first_index(old(self).entries@, *id)]
                    && final(self).entries@ == old(self).entries@.update(first_index(old(self).entries@, *id), *final(e))
                    && final(self).created_at == old(self).created_at
                    && final(self).updated_at == old(self).updated_at,
                None => !has_id(old(self).entries@, *id) && *final(self) == *old(self),
            },
    {
        match self.position(*id) {
            Some(pos) => Some(&mut self.entries[pos]),
            None => None,
        }
    }

    /// All entries, in order.
    pub fn list_entries(&self) -> (r: &[VaultEntry])
        ensures
            r@ == self.entries@,
    {
        self.entries.as_slice()
    }

    /// The entries whose service name, username or one of whose tags contains the
    /// query, ignoring case; in vault order.
    pub fn search(&self, query: &str) -> (r: Vec<&VaultEntry>)
        ensures
            r@.map_values(|e: &VaultEntry| *e) == self.entries@.filter(matcher(lowercase_chars(query@))),
            query@.len() == 0 ==> r@.map_values(|e: &VaultEntry| *e) == self.entries@,
    {
        let lowered = to_lowercase(query);
        proof {
            if query@.len() == 0 {
                lemma_empty_query_lists_all(self.entries@, lowercase_chars(query@));
            }
        }
        let q = chars_of(lowered.as_str());
        let ghost pred = matcher(lowercase_chars(query@));
        let mut found: Vec<&VaultEntry> = Vec::new();
        let mut i: usize = 0;
        while i < self.entries.len()
            invariant
                i <= self.entries@.len(),
                q@ == lowercase_chars(query@),
                pred == matcher(lowercase_chars(query@)),
                found@.map_values(|e: &VaultEntry| *e) == self.entries@.subrange(0, i as int).filter(pred),
            decreases self.entries@.len() - i,
        {
            let e = &self.entries[i];
            proof {
                self.entries@.subrange(0, i as int).lemma_filter_push(*e, pred);
                assert(self.entries@.subrange(0, i + 1) =~= self.entries@.subrange(0, i as int).push(*e));
            }
            let ghost before = found@;
            if entry_matches_query(e, q.as_slice()) {
                found.push(e);
                assert(found@.map_values(|e: &VaultEntry| *e) =~= before.map_values(|e: &VaultEntry| *e).push(*e));
            }
            i += 1;
        }
        assert(self.entries@.subrange(0, self.entries@.len() as int) =~= self.entries@);
        found
    }
}

/// There is only one first position of an id.
proof fn lemma_first_index_unique(entries: Seq<VaultEntry>, id: u128, i: int)
    requires
        is_first_with_id(entries, id, i),
    ensures
        has_id(entries, id),
        first_index(entries, id) == i,
{
    assert(entries[i].id == id);
    let k = first_index(entries, id);
    assert(is_first_with_id(entries, id, k));
    if k < i {
        assert(entries[k].id != id);
    }
    if i < k {
        assert(entries[i].id != id);
    }
}

/// Where an id occurs, it has a first position.
pub proof fn lemma_first_index_exists(entries: Seq<VaultEntry>, id: u128)
    requires
        has_id(entries, id),
    ensures
        is_first_with_id(entries, id, first_index(entries, id)),
    decreases entries.len(),
{
    if entries[0].id == id {
        lemma_first_index_unique(entries, id, 0);
    } else {
        let rest = entries.drop_first();
        let w = choose|i: int| 0 <= i < entries.len() && (#[trigger] entries[i]).id == id;
        assert(rest[w - 1] == entries[w]);
        lemma_first_index_exists(rest, id);
        let k = first_index(rest, id);
        assert forall|j: int| 0 <= j < k + 1 implies (#[trigger] entries[j]).id != id by {
            if j > 0 {
                assert(entries[j] == rest[j - 1]);
            }
        }
        assert(entries[k + 1] == rest[k]);
        lemma_first_index_unique(entries, id, k + 1);
    }
}

impl Default for Vault {
    fn default() -> (v: Self)
        ensures
            v.entries@.len() == 0,
            v.created_at == v.updated_at,
    {
        Vault::new()
    }
}

/// Law: after an entry whose id is new to the vault is added, looking its id up
/// finds that entry, at the end.
pub proof fn lemma_added_entry_is_found(entries: Seq<VaultEntry>, e: VaultEntry)
    requires
        !has_id(entries, e.id),
    ensures
        has_id(entries.push(e), e.id),
        first_index(entries.push(e), e.id) == entries.len(),
        entries.push(e)[first_index(entries.push(e), e.id)] == e,
{
    let s = entries.push(e);
    assert forall|j: int| 0 <= j < entries.len() implies (#[trigger] s[j]).id != e.id by {
        assert(s[j] == entries[j]);
    }
    lemma_first_index_unique(s, e.id, entries.len() as int);
}

/// Law: removing the id of an entry just added (with an id new to the vault)
/// gives back the entries as they were.
pub proof fn lemma_remove_undoes_add(entries: Seq<VaultEntry>, e: VaultEntry)
    requires
        !has_id(entries, e.id),
    ensures
        entries.push(e).remove(first_index(entries.push(e), e.id)) == entries,
{
    lemma_added_entry_is_found(entries, e);
    assert(entries.push(e).remove(entries.len() as int) =~= entries);
}

/// Law: a search result only holds matching entries, each of them from the vault.
pub proof fn lemma_search_results_match(entries: Seq<VaultEntry>, query_lower: Seq<char>, k: int)
    requires
        0 <= k < entries.filter(matcher(query_lower)).len(),
    ensures
        entry_matches(entries.filter(matcher(query_lower))[k], query_lower),
        entries.contains(entries.filter(matcher(query_lower))[k]),
{
    let f = entries.filter(matcher(query_lower));
    entries.lemma_filter_pred(matcher(query_lower), k);
    assert(f.contains(f[k]));
    entries.lemma_filter_contains_rev(matcher(query_lower), f[k]);
}

/// Law: every entry that matches the query is in the search result.
pub proof fn lemma_search_finds_all_matches(entries: Seq<VaultEntry>, query_lower: Seq<char>, i: int)
    requires
        0 <= i < entries.len(),
        entry_matches(entries[i], query_lower),
    ensures
        entries.filter(matcher(query_lower)).contains(entries[i]),
{
    entries.lemma_filter_contains(matcher(query_lower), i);
}

/// Law: an entry of the vault is in the search result exactly when the lowercased
/// query occurs in its lowercased service name, in its lowercased username, or in
/// any one of its lowercased tags, whichever tag that is.
pub proof fn lemma_search_matches_exactly_the_fields(entries: Seq<VaultEntry>, query_lower: Seq<char>, i: int)
    requires
        0 <= i < entries.len(),
    ensures
        entries.filter(matcher(query_lower)).contains(entries[i]) <==> (
            is_substring(query_lower, lowercase_chars(entries[i].service_name@))
            || is_substring(query_lower, lowercase_chars(entries[i].username@))
            || exists|k: int| 0 <= k < entries[i].tags@.len()
                && is_substring(query_lower, lowercase_chars((#[trigger] entries[i].tags@[k])@))
        ),
{
    let e = entries[i];
    if entries.filter(matcher(query_lower)).contains(e) {
        entries.lemma_filter_contains_rev(matcher(query_lower), e);
        assert(entry_matches(e, query_lower));
    }
    if entry_matches(e, query_lower) {
        entries.lemma_filter_contains(matcher(query_lower), i);
    }
}

/// Law: whichever of an entry's tags contains the query, ignoring case, the
/// entry is found by the search.
pub proof fn lemma_search_finds_any_tag(entries: Seq<VaultEntry>, query_lower: Seq<char>, i: int, k: int)
    requires
        0 <= i < entries.len(),
        0 <= k < entries[i].tags@.len(),
        is_substring(query_lower, lowercase_chars(entries[i].tags@[k]@)),
    ensures
        entries.filter(matcher(query_lower)).contains(entries[i]),
{
    assert(text_matches(entries[i].tags@[k]@, query_lower));
    assert(entry_matches(entries[i], query_lower));
    entries.lemma_filter_contains(matcher(query_lower), i);
}

/// Law: the empty query matches every entry, so searching for it lists the whole vault.
pub proof fn lemma_empty_query_lists_all(entries: Seq<VaultEntry>, query_lower: Seq<char>)
    requires
        query_lower.len() == 0,
    ensures
        entries.filter(matcher(query_lower)) == entries,
    decreases entries.len(),
{
    reveal(Seq::filter);
    if entries.len() > 0 {
        let e = entries.last();
        let low = lowercase_chars(e.service_name@);
        assert(low.subrange(0, 0 + query_lower.len() as int) =~= query_lower);
        assert(text_matches(e.service_name@, query_lower));
        assert(entry_matches(e, query_lower));
        lemma_empty_query_lists_all(entries.drop_last(), query_lower);
        assert(entries.drop_last().push(e) =~= entries);
    }
}

/// A string held in a `zeroize::Zeroizing<String>`: its memory is overwritten
/// with zeros when the value is dropped.
#[verifier::external_body]
pub struct SecretString {
    inner: Zeroizing<String>,
}

/// The characters a secret string holds.
pub uninterp spec fn secret_text(s: SecretString) -> Seq<char>;

/// Trusted: `Zeroizing::new`, which only moves the string inside.
#[verifier::external_body]
fn zeroizing_string(s: String) -> (r: SecretString)
    ensures
        secret_text(r) == s@,
{
    SecretString { inner: Zeroizing::new(s) }
}

/// Trusted: `Deref` of `Zeroizing<String>`, read as a string slice.
#[verifier::external_body]
fn secret_str(s: &SecretString) -> (r: &str)
    ensures
        r@ == secret_text(*s),
{
    s.inner.as_str()
}

impl SecretString {
    pub fn new(s: String) -> (r: Self)
        ensures
            secret_text(r) == s@,
    {
        zeroizing_string(s)
    }

    pub fn as_str(&self) -> (s: &str)
        ensures
            s@ == secret_text(*self),
    {
        secret_str(self)
    }
}

impl From<String> for SecretString {
    fn from(s: String) -> (r: Self)
        ensures
            secret_text(r) == s@,
    {
        SecretString::new(s)
    }
}

/// A conversion promises only the held text (`secret_text`), not equality with a
/// given value, since a secret string is opaque.
impl vstd::std_specs::convert::FromSpecImpl<String> for SecretString {
    open spec fn obeys_from_spec() -> bool {
        false
    }

    open spec fn from_spec(s: String) -> Self {
        choose|r: SecretString| secret_text(r) == s@
    }
}

} // verus!
