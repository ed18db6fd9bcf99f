//! Entry ids as text, and how a user's query picks an entry.
use vstd::prelude::*;
use crate::text::{lowercase_chars, to_lowercase};
use crate::vault::{first_index, has_id, Vault, VaultEntry};

verus! {

/// The lowercase hexadecimal digit of a value below 16.
pub open spec fn hex_digit(d: u128) -> char {
    if d < 10 {
        (d + 48) as char
    } else {
        (d + 87) as char
    }
}

/// The `k`-th hexadecimal digit of a 128-bit value, most significant first.
pub open spec fn nibble(id: u128, k: int) -> u128 {
    (id >> ((124 - 4 * k) as u128)) & 0xF
}

/// Which hexadecimal digit is written at position `p` of the hyphenated form.
pub open spec fn digit_at(p: int) -> int {
    if p < 8 {
        p
    } else if p < 13 {
        p - 1
    } else if p < 18 {
        p - 2
    } else if p < 23 {
        p - 3
    } else {
        p - 4
    }
}

/// The hyphenated lowercase form of a UUID: 8-4-4-4-12 hexadecimal digits.
pub open spec fn uuid_text(id: u128) -> Seq<char> {
    Seq::new(
        36,
        |p: int|
            if p == 8 || p == 13 || p == 18 || p == 23 {
                '-'
            } else {
                hex_digit(nibble(id, digit_at(p)))
            },
    )
}

/// What `uuid::Uuid::parse_str` makes of a text, as the UUID's 128-bit value
/// (it accepts the simple, hyphenated, braced and URN forms).
pub uninterp spec fn uuid_from_text(s: Seq<char>) -> Option<u128>;

/// Trusted: `uuid::Uuid::from_u128(id).to_string()`, whose `Display` writes the
/// hyphenated lowercase form.
#[verifier::external_body]
pub(crate) fn uuid_to_string(id: u128) -> (s: String)
    ensures
        s@ == uuid_text(id),
{
    uuid::Uuid::from_u128(id).to_string()
}

/// Trusted: `uuid::Uuid::parse_str(s)`, read as the 128-bit value. The result is
/// named by `uuid_from_text`; also claimed: the hyphenated lowercase form of a
/// value parses back to that value.
#[verifier::external_body]
pub(crate) fn parse_uuid(s: &str) -> (r: Option<u128>)
    ensures
        r == uuid_from_text(s@),
        forall|id: u128| #[trigger] uuid_text(id) == s@ ==> r == Some(id),
{
    match uuid::Uuid::parse_str(s) {
        Ok(u) => Some(u.as_u128()),
        Err(_) => None,
    }
}

/// The entry at `i` is the first whose service name equals the query, ignoring case.
pub open spec fn is_first_named(entries: Seq<VaultEntry>, query: Seq<char>, i: int) -> bool {
    &&& 0 <= i < entries.len()
    &&& lowercase_chars(entries[i].service_name@) == lowercase_chars(query)
    &&& forall|j: int| 0 <= j < i ==> lowercase_chars((#[trigger] entries[j]).service_name@) != lowercase_chars(query)
}

/// Some entry's service name equals the query, ignoring case.
pub open spec fn has_name(entries: Seq<VaultEntry>, query: Seq<char>) -> bool {
    exists|i: int| 0 <= i < entries.len() && lowercase_chars((#[trigger] entries[i]).service_name@) == lowercase_chars(query)
}

/// The position of the first entry whose service name equals the query, ignoring case.
fn position_by_name(vault: &Vault, query: &str) -> (r: Option<usize>)
    ensures
        match r {
            Some(i) => is_first_named(vault.entries@, query@, i as int),
            None => !has_name(vault.entries@, query@),
        },
{
    let wanted = to_lowercase(query);
    let mut i: usize = 0;
    while i < vault.entries.len()
        invariant
            i <= vault.entries@.len(),
            wanted@ == lowercase_chars(query@),
            forall|j: int| 0 <= j < i ==> lowercase_chars((#[trigger] vault.entries@[j]).service_name@) != lowercase_chars(query@),
        decreases vault.entries@.len() - i,
    {
        let name = to_lowercase(vault.entries[i].service_name.as_str());
        if name == wanted {
            return Some(i);
        }
        i += 1;
    }
    None
}

/// The id a command-line query stands for: the query itself if it parses as a
/// UUID, otherwise the id of the first entry whose service name equals the query,
/// ignoring case.
pub fn resolve_entry_id(vault: &Vault, query: &str) -> (r: Option<u128>)
    ensures
        uuid_from_text(query@) is Some ==> r == uuid_from_text(query@),
        forall|id: u128| #[trigger] uuid_text(id) == query@ ==> r == Some(id),
        uuid_from_text(query@) is None ==> match r {
            Some(id) => exists|i: int| is_first_named(vault.entries@, query@, i) && vault.entries@[i].id == id,
            None => !has_name(vault.entries@, query@),
        },
{
    match parse_uuid(query) {
        Some(id) => Some(id),
        None => match position_by_name(vault, query) {
            Some(i) => Some(vault.entries[i].id),
            None => None,
        },
    }
}

/// The entry a command-line query shows: by id if the query parses as a UUID,
/// otherwise the first entry whose service name equals the query, ignoring case.
pub fn find_entry<'a>(vault: &'a Vault, query: &str) -> (r: Option<&'a VaultEntry>)
    ensures
        uuid_from_text(query@) matches Some(id) ==> match r {
            Some(e) => has_id(vault.entries@, id) && *e == vault.entries@[first_index(vault.entries@, id)],
            None => !has_id(vault.entries@, id),
        },
        uuid_from_text(query@) is None ==> match r {
            Some(e) => exists|i: int| is_first_named(vault.entries@, query@, i) && vault.entries@[i] == *e,
            None => !has_name(vault.entries@, query@),
        },
{
    match parse_uuid(query) {
        Some(id) => vault.get_entry(&id),
        None => match position_by_name(vault, query) {
            Some(i) => Some(&vault.entries[i]),
            None => None,
        },
    }
}

/// Law: the entry a name query picks has a service name equal to the query once
/// both are lowercased (equal, not merely containing it), and no earlier entry's
/// service name is.
pub proof fn lemma_name_query_picks_first_equal(entries: Seq<VaultEntry>, query: Seq<char>, i: int)
    requires
        is_first_named(entries, query, i),
    ensures
        0 <= i < entries.len(),
        lowercase_chars(entries[i].service_name@) == lowercase_chars(query),
        forall|j: int| 0 <= j < i ==> lowercase_chars((#[trigger] entries[j]).service_name@) != lowercase_chars(query),
{
}

/// Law: a name query finds nothing only when no service name equals the query,
/// ignoring case; where one does, an entry is picked, and only one position can be
/// the picked one.
pub proof fn lemma_name_query_finds_equal_names(entries: Seq<VaultEntry>, query: Seq<char>, i: int, j: int)
    requires
        0 <= i < entries.len(),
        lowercase_chars(entries[i].service_name@) == lowercase_chars(query),
    ensures
        has_name(entries, query),
        is_first_named(entries, query, j) && is_first_named(entries, query, i) ==> i == j,
        is_first_named(entries, query, j) ==> j <= i,
{
    assert(lowercase_chars(entries[i].service_name@) == lowercase_chars(query));
    if is_first_named(entries, query, j) && j > i {
        assert(lowercase_chars(entries[i].service_name@) != lowercase_chars(query));
    }
}

} // verus!
