//! What the desktop application's commands decide. Each command answers with a
//! `CommandResult`; the ones that change the open vault answer `Step::Save`, upon
//! which the application writes a backup and saves the vault, then replies.
use vstd::prelude::*;
use crate::ids::{parse_uuid, uuid_from_text, uuid_text, uuid_to_string};
use crate::password_generator::{acceptable_password, generate_password, validation_error, PasswordConfig};
use crate::state::AppState;
use crate::text::{chars_of, is_substring, lowercase_chars, to_lowercase};
use crate::vault::{
    entry_matches, entry_matches_query, first_index, has_id, lemma_first_index_exists, text_matches,
    text_matches_query, is_v4_uuid, VaultEntry,
};

verus! {

/// The answer of a command.
pub struct CommandResult<T> {
    pub success: bool,
    pub data: Option<T>,
    pub error: Option<String>,
}

impl<T> CommandResult<T> {
    /// A success carrying data.
    pub fn ok(data: T) -> (r: Self)
        ensures
            r.success,
            r.data == Some(data),
            r.error is None,
    {
        CommandResult { success: true, data: Some(data), error: None }
    }

    /// A failure carrying a message.
    pub fn err(error: String) -> (r: Self)
        ensures
            !r.success,
            r.data is None,
            r.error == Some(error),
    {
        CommandResult { success: false, data: None, error: Some(error) }
    }
}

/// An entry as the front end receives it: the id as hyphenated text.
pub struct SerializableEntry {
    pub id: String,
    pub service_name: String,
    pub username: String,
    pub password: String,
    pub url: Option<String>,
    pub notes: Option<String>,
    pub tags: Vec<String>,
    pub created_at: i64,
    pub updated_at: i64,
}

/// `s` is how the front end sees `e`.
pub open spec fn shows_entry(s: SerializableEntry, e: VaultEntry) -> bool {
    &&& s.id@ == uuid_text(e.id)
    &&& s.service_name == e.service_name
    &&& s.username == e.username
    &&& s.password == e.password
    &&& s.url == e.url
    &&& s.notes == e.notes
    &&& s.tags@ == e.tags@
    &&& s.created_at == e.created_at
    &&& s.updated_at == e.updated_at
}

/// `shown` is how the front end sees `entries`, one for one.
pub open spec fn shows_entries(shown: Seq<SerializableEntry>, entries: Seq<VaultEntry>) -> bool {
    &&& shown.len() == entries.len()
    &&& forall|i: int| 0 <= i < shown.len() ==> shows_entry(#[trigger] shown[i], entries[i])
}

fn clone_opt(s: &Option<String>) -> (r: Option<String>)
    ensures
        r == *s,
{
    match s {
        Some(v) => Some(v.clone()),
        None => None,
    }
}

fn clone_strings(v: &Vec<String>) -> (r: Vec<String>)
    ensures
        r@ == v@,
{
    let mut r: Vec<String> = Vec::new();
    let mut i: usize = 0;
    while i < v.len()
        invariant
            i <= v@.len(),
            r@ == v@.subrange(0, i as int),
        decreases v@.len() - i,
    {
        r.push(v[i].clone());
        i += 1;
        assert(r@ =~= v@.subrange(0, i as int));
    }
    assert(v@.subrange(0, v@.len() as int) =~= v@);
    r
}

impl SerializableEntry {
    /// How the front end sees an entry.
    pub fn from_entry(e: &VaultEntry) -> (s: Self)
        ensures
            shows_entry(s, *e),
    {
        SerializableEntry {
            id: uuid_to_string(e.id),
            service_name: e.service_name.clone(),
            username: e.username.clone(),
            password: e.password.clone(),
            url: clone_opt(&e.url),
            notes: clone_opt(&e.notes),
            tags: clone_strings(&e.tags),
            created_at: e.created_at,
            updated_at: e.updated_at,
        }
    }
}

fn show_all(entries: &[VaultEntry]) -> (r: Vec<SerializableEntry>)
    ensures
        shows_entries(r@, entries@),
{
    let mut r: Vec<SerializableEntry> = Vec::new();
    let mut i: usize = 0;
    while i < entries.len()
        invariant
            i <= entries@.len(),
            r@.len() == i,
            forall|k: int| 0 <= k < i ==> shows_entry(#[trigger] r@[k], entries@[k]),
        decreases entries@.len() - i,
    {
        r.push(SerializableEntry::from_entry(&entries[i]));
        i += 1;
    }
    r
}

/// The desktop search bar looks in every field of an entry: its service name,
/// its username, its tags and its notes.
pub open spec fn desktop_entry_matches(e: VaultEntry, query_lower: Seq<char>) -> bool {
    ||| entry_matches(e, query_lower)
    ||| (e.notes is Some && text_matches(e.notes.unwrap()@, query_lower))
}

/// The predicate the desktop search filters the entries with.
pub open spec fn desktop_matcher(query_lower: Seq<char>) -> spec_fn(VaultEntry) -> bool {
    |e: VaultEntry| desktop_entry_matches(e, query_lower)
}

fn desktop_entry_matches_query(e: &VaultEntry, query_lower: &[char]) -> (r: bool)
    ensures
        r == desktop_entry_matches(*e, query_lower@),
{
    if entry_matches_query(e, query_lower) {
        return true;
    }
    match &e.notes {
        Some(n) => text_matches_query(n.as_str(), query_lower),
        None => false,
    }
}

/// The entries that the desktop search shows for a query, in vault order.
fn desktop_search(entries: &[VaultEntry], query: &str) -> (r: Vec<SerializableEntry>)
    ensures
        shows_entries(r@, entries@.filter(desktop_matcher(lowercase_chars(query@)))),
        query@.len() == 0 ==> entries@.filter(desktop_matcher(lowercase_chars(query@))) == entries@,
{
    let lowered = to_lowercase(query);
    proof {
        if query@.len() == 0 {
            lemma_empty_query_shows_all(entries@, lowercase_chars(query@));
        }
    }
    let q = chars_of(lowered.as_str());
    let ghost pred = desktop_matcher(lowercase_chars(query@));
    let mut r: Vec<SerializableEntry> = Vec::new();
    let mut i: usize = 0;
    while i < entries.len()
        invariant
            i <= entries@.len(),
            q@ == lowercase_chars(query@),
            pred == desktop_matcher(lowercase_chars(query@)),
            shows_entries(r@, entries@.subrange(0, i as int).filter(pred)),
        decreases entries@.len() - i,
    {
        let e = &entries[i];
        proof {
            entries@.subrange(0, i as int).lemma_filter_push(*e, pred);
            assert(entries@.subrange(0, i + 1) =~= entries@.subrange(0, i as int).push(*e));
        }
        if desktop_entry_matches_query(e, q.as_slice()) {
            r.push(SerializableEntry::from_entry(e));
        }
        i += 1;
    }
    assert(entries@.subrange(0, entries@.len() as int) =~= entries@);
    r
}

/// The message of a command refused because no vault is open.
pub open spec fn locked_message() -> Seq<char> {
    "Le coffre est verrouillé"@
}

/// A failed result with the given message.
pub open spec fn fails_with<T>(r: CommandResult<T>, message: Seq<char>) -> bool {
    !r.success && r.data is None && (r.error matches Some(m) && m@ == message)
}

/// A successful result with the given data.
pub open spec fn succeeds_with<T>(r: CommandResult<T>, data: T) -> bool {
    r.success && r.data == Some(data) && r.error is None
}

/// The vault, its file and the master password are all at hand.
pub open spec fn ready(s: AppState) -> bool {
    s.vault is Some && s.vault_path is Some && s.master_password is Some
}

/// What a command that may change the vault decides.
pub enum Step<T> {
    /// Answer at once; the vault is unchanged.
    Reply(CommandResult<T>),
    /// The open vault changed: back it up, save it to its file with the master
    /// password, and answer with this data (or with the save error).
    Save(T),
}

/// Locks the session.
pub fn lock_vault(state: &mut AppState) -> (r: CommandResult<()>)
    ensures
        final(state).vault is None,
        final(state).master_password is None,
        final(state).vault_path == old(state).vault_path,
        succeeds_with(r, ()),
{
    state.lock();
    CommandResult::ok(())
}

/// Whether the session is locked.
pub fn is_locked(state: &AppState) -> (r: CommandResult<bool>)
    ensures
        succeeds_with(r, state.vault is None),
{
    CommandResult::ok(!state.is_unlocked())
}

/// All entries of the open vault.
pub fn list_entries(state: &AppState) -> (r: CommandResult<Vec<SerializableEntry>>)
    ensures
        match state.vault {
            Some(v) => r.success && r.error is None && (r.data matches Some(d) && shows_entries(d@, v.entries@)),
            None => fails_with(r, locked_message()),
        },
{
    match &state.vault {
        Some(vault) => CommandResult::ok(show_all(vault.list_entries())),
        None => CommandResult::err("Le coffre est verrouillé".to_string()),
    }
}

/// The entries of the open vault that contain the query, ignoring case, in their
/// service name, username, tags or notes; in vault order.
pub fn search_entries(query: &str, state: &AppState) -> (r: CommandResult<Vec<SerializableEntry>>)
    ensures
        match state.vault {
            Some(v) => r.success && r.error is None && (r.data matches Some(d) && shows_entries(
                d@,
                v.entries@.filter(desktop_matcher(lowercase_chars(query@))),
            ) && (query@.len() == 0 ==> shows_entries(d@, v.entries@))),
            None => fails_with(r, locked_message()),
        },
{
    match &state.vault {
        Some(vault) => {
            CommandResult::ok(desktop_search(vault.entries.as_slice(), query))
        },
        None => CommandResult::err("Le coffre est verrouillé".to_string()),
    }
}

/// The configuration the password generator command builds from its flags.
pub open spec fn command_config(
    length: usize,
    use_uppercase: bool,
    use_lowercase: bool,
    use_digits: bool,
    use_symbols: bool,
    exclude_ambiguous: bool,
) -> PasswordConfig {
    PasswordConfig { length, use_uppercase, use_lowercase, use_digits, use_symbols, exclude_ambiguous }
}

/// Generates a password from the flags.
pub fn generate_password_cmd(
    length: usize,
    use_uppercase: bool,
    use_lowercase: bool,
    use_digits: bool,
    use_symbols: bool,
    exclude_ambiguous: bool,
) -> (r: CommandResult<String>)
    ensures
        ({
            let c = command_config(length, use_uppercase, use_lowercase, use_digits, use_symbols, exclude_ambiguous);
            match validation_error(c) {
                None => r.success && r.error is None && (r.data matches Some(p) && acceptable_password(c, p@)),
                Some(m) => fails_with(r, m),
            }
        }),
{
    let config = PasswordConfig { length, use_uppercase, use_lowercase, use_digits, use_symbols, exclude_ambiguous };
    match generate_password(&config) {
        Ok(password) => CommandResult::ok(password),
        Err(e) => CommandResult::err(e),
    }
}

/// `e` is a new entry made from the given fields.
pub open spec fn made_from(
    e: VaultEntry,
    service_name: String,
    username: String,
    password: String,
    url: Option<String>,
    notes: Option<String>,
    tags: Vec<String>,
) -> bool {
    &&& e.service_name == service_name
    &&& e.username == username
    &&& e.password == password
    &&& e.url == url
    &&& e.notes == notes
    &&& e.tags == tags
    &&& is_v4_uuid(e.id)
    &&& e.created_at == e.updated_at
    &&& e.created_at >= 0
}

/// Adds a new entry to the open vault.
pub fn add_entry(
    service_name: String,
    username: String,
    password: String,
    url: Option<String>,
    notes: Option<String>,
    tags: Vec<String>,
    state: &mut AppState,
) -> (r: Step<SerializableEntry>)
    ensures
        ready(*old(state)) ==> (r matches Step::Save(s) && exists|e: VaultEntry|
            made_from(e, service_name, username, password, url, notes, tags) && shows_entry(s, e)
                && final(state).vault->Some_0.entries@ == old(state).vault->Some_0.entries@.push(e)),
        ready(*old(state)) ==> final(state).vault is Some && final(state).vault_path == old(state).vault_path
            && final(state).master_password == old(state).master_password
            && final(state).vault->Some_0.created_at == old(state).vault->Some_0.created_at
            && final(state).vault->Some_0.updated_at >= 0,
        !ready(*old(state)) ==> (r matches Step::Reply(c) && fails_with(c, locked_message()))
            && *final(state) == *old(state),
{
    if state.vault.is_none() || state.vault_path.is_none() || state.master_password.is_none() {
        return Step::Reply(CommandResult::err("Le coffre est verrouillé".to_string()));
    }
    let entry = VaultEntry::new(service_name, username, password, url, notes, tags);
    let shown = SerializableEntry::from_entry(&entry);
    let ghost e = entry;
    match &mut state.vault {
        Some(vault) => {
            vault.add_entry(entry);
        },
        None => {},
    }
    assert(made_from(e, service_name, username, password, url, notes, tags) && shows_entry(shown, e));
    Step::Save(shown)
}

/// `new` is `old` with the given fields replaced; `url` and `notes` become `Some`
/// of the given value; the id and times stay.
pub open spec fn changed_entry(
    old: VaultEntry,
    new: VaultEntry,
    service_name: Option<String>,
    username: Option<String>,
    password: Option<String>,
    url: Option<String>,
    notes: Option<String>,
    tags: Option<Vec<String>>,
) -> bool {
    &&& new.id == old.id
    &&& new.created_at == old.created_at
    &&& new.service_name == (if service_name is Some { service_name->Some_0 } else { old.service_name })
    &&& new.username == (if username is Some { username->Some_0 } else { old.username })
    &&& new.password == (if password is Some { password->Some_0 } else { old.password })
    &&& new.url == (if url is Some { url } else { old.url })
    &&& new.notes == (if notes is Some { notes } else { old.notes })
    &&& new.tags == (if tags is Some { tags->Some_0 } else { old.tags })
}

/// Replaces the given fields of an entry.
pub fn apply_entry_changes(
    entry: &mut VaultEntry,
    service_name: Option<String>,
    username: Option<String>,
    password: Option<String>,
    url: Option<String>,
    notes: Option<String>,
    tags: Option<Vec<String>>,
)
    ensures
        changed_entry(*old(entry), *final(entry), service_name, username, password, url, notes, tags),
        final(entry).updated_at == old(entry).updated_at,
{
    if let Some(s) = service_name {
        entry.service_name = s;
    }
    if let Some(u) = username {
        entry.username = u;
    }
    if let Some(p) = password {
        entry.password = p;
    }
    if let Some(u) = url {
        entry.url = Some(u);
    }
    if let Some(n) = notes {
        entry.notes = Some(n);
    }
    if let Some(t) = tags {
        entry.tags = t;
    }
}

/// The message of a command given an id that is not a UUID.
pub open spec fn bad_id_message() -> Seq<char> {
    "ID invalide"@
}

/// The message of a command given an id that no entry has.
pub open spec fn missing_entry_message() -> Seq<char> {
    "Entrée non trouvée"@
}

/// Changes the given fields of the entry with the id, and its update time.
pub fn update_entry(
    id: &str,
    service_name: Option<String>,
    username: Option<String>,
    password: Option<String>,
    url: Option<String>,
    notes: Option<String>,
    tags: Option<Vec<String>>,
    state: &mut AppState,
) -> (r: Step<SerializableEntry>)
    ensures
        ready(*old(state)) ==> forall|u: u128| #[trigger] uuid_text(u) == id@ ==> uuid_from_text(id@) == Some(u),
        !ready(*old(state)) ==> (r matches Step::Reply(c) && fails_with(c, locked_message()))
            && *final(state) == *old(state),
        ready(*old(state)) && uuid_from_text(id@) is None ==> (r matches Step::Reply(c) && fails_with(c, bad_id_message()))
            && *final(state) == *old(state),
        ready(*old(state)) && uuid_from_text(id@) is Some && !has_id(old(state).vault->Some_0.entries@, uuid_from_text(id@)->Some_0)
            ==> (r matches Step::Reply(c) && fails_with(c, missing_entry_message())) && *final(state) == *old(state),
        ready(*old(state)) && uuid_from_text(id@) is Some && has_id(old(state).vault->Some_0.entries@, uuid_from_text(id@)->Some_0)
            ==> ({
                let entries = old(state).vault->Some_0.entries@;
                let i = first_index(entries, uuid_from_text(id@)->Some_0);
                &&& final(state).vault is Some
                &&& final(state).vault_path == old(state).vault_path
                &&& final(state).master_password == old(state).master_password
                &&& final(state).vault->Some_0.entries@.len() == entries.len()
                &&& forall|j: int| 0 <= j < entries.len() && j != i ==> final(state).vault->Some_0.entries@[j] == entries[j]
                &&& changed_entry(entries[i], final(state).vault->Some_0.entries@[i], service_name, username, password, url, notes, tags)
                &&& final(state).vault->Some_0.entries@[i].updated_at >= 0
                &&& r matches Step::Save(s) && shows_entry(s, final(state).vault->Some_0.entries@[i])
            }),
{
    if state.vault.is_none() || state.vault_path.is_none() || state.master_password.is_none() {
        return Step::Reply(CommandResult::err("Le coffre est verrouillé".to_string()));
    }
    let uuid = match parse_uuid(id) {
        Some(u) => u,
        None => {
            return Step::Reply(CommandResult::err("ID invalide".to_string()));
        },
    };
    match &mut state.vault {
        Some(vault) => match vault.get_entry_mut(&uuid) {
            Some(entry) => {
                proof {
                    lemma_first_index_exists(old(state).vault->Some_0.entries@, uuid);
                }
                apply_entry_changes(entry, service_name, username, password, url, notes, tags);
                entry.touch();
                let shown = SerializableEntry::from_entry(&*entry);
                Step::Save(shown)
            },
            None => Step::Reply(CommandResult::err("Entrée non trouvée".to_string())),
        },
        None => Step::Reply(CommandResult::err("Le coffre est verrouillé".to_string())),
    }
}

/// Deletes the entry with the id.
pub fn delete_entry(id: &str, state: &mut AppState) -> (r: Step<()>)
    ensures
        ready(*old(state)) ==> forall|u: u128| #[trigger] uuid_text(u) == id@ ==> uuid_from_text(id@) == Some(u),
        !ready(*old(state)) ==> (r matches Step::Reply(c) && fails_with(c, locked_message()))
            && *final(state) == *old(state),
        ready(*old(state)) && uuid_from_text(id@) is None ==> (r matches Step::Reply(c) && fails_with(c, bad_id_message()))
            && *final(state) == *old(state),
        ready(*old(state)) && uuid_from_text(id@) is Some && !has_id(old(state).vault->Some_0.entries@, uuid_from_text(id@)->Some_0)
            ==> (r matches Step::Reply(c) && fails_with(c, missing_entry_message())) && *final(state) == *old(state),
        ready(*old(state)) && uuid_from_text(id@) is Some && has_id(old(state).vault->Some_0.entries@, uuid_from_text(id@)->Some_0)
            ==> ({
                let entries = old(state).vault->Some_0.entries@;
                &&& r matches Step::Save(())
                &&& final(state).vault is Some
                &&& final(state).vault->Some_0.entries@ == entries.remove(first_index(entries, uuid_from_text(id@)->Some_0))
                &&& final(state).vault->Some_0.created_at == old(state).vault->Some_0.created_at
                &&& final(state).vault->Some_0.updated_at >= 0
                &&& final(state).vault_path == old(state).vault_path
                &&& final(state).master_password == old(state).master_password
            }),
{
    if state.vault.is_none() || state.vault_path.is_none() || state.master_password.is_none() {
        return Step::Reply(CommandResult::err("Le coffre est verrouillé".to_string()));
    }
    let uuid = match parse_uuid(id) {
        Some(u) => u,
        None => {
            return Step::Reply(CommandResult::err("ID invalide".to_string()));
        },
    };
    match &mut state.vault {
        Some(vault) => match vault.remove_entry(&uuid) {
            Some(_) => Step::Save(()),
            None => Step::Reply(CommandResult::err("Entrée non trouvée".to_string())),
        },
        None => Step::Reply(CommandResult::err("Le coffre est verrouillé".to_string())),
    }
}

/// Law: the empty query matches every entry, so the desktop search for it shows
/// the whole vault.
pub proof fn lemma_empty_query_shows_all(entries: Seq<VaultEntry>, query_lower: Seq<char>)
    requires
        query_lower.len() == 0,
    ensures
        entries.filter(desktop_matcher(query_lower)) == entries,
    decreases entries.len(),
{
    reveal(Seq::filter);
    if entries.len() > 0 {
        let e = entries.last();
        let low = lowercase_chars(e.service_name@);
        assert(low.subrange(0, 0 + query_lower.len() as int) =~= query_lower);
        assert(text_matches(e.service_name@, query_lower));
        assert(desktop_entry_matches(e, query_lower));
        lemma_empty_query_shows_all(entries.drop_last(), query_lower);
        assert(entries.drop_last().push(e) =~= entries);
    }
}

/// Law: every entry whose notes contain the query, ignoring case, is among the
/// entries the desktop search shows, even where no other field matches.
pub proof fn lemma_desktop_search_finds_notes(entries: Seq<VaultEntry>, query_lower: Seq<char>, i: int)
    requires
        0 <= i < entries.len(),
        entries[i].notes is Some,
        text_matches(entries[i].notes.unwrap()@, query_lower),
    ensures
        entries.filter(desktop_matcher(query_lower)).contains(entries[i]),
{
    entries.lemma_filter_contains(desktop_matcher(query_lower), i);
}

/// Law: an update changes exactly the fields it is given. A field given as `None`
/// keeps its old value; a given field takes the given value (`url` and `notes`
/// become `Some` of it); the id and the creation time never change.
pub proof fn lemma_update_changes_only_given_fields(
    old: VaultEntry,
    new: VaultEntry,
    service_name: Option<String>,
    username: Option<String>,
    password: Option<String>,
    url: Option<String>,
    notes: Option<String>,
    tags: Option<Vec<String>>,
)
    requires
        changed_entry(old, new, service_name, username, password, url, notes, tags),
    ensures
        new.id == old.id,
        new.created_at == old.created_at,
        service_name is None ==> new.service_name == old.service_name,
        username is None ==> new.username == old.username,
        password is None ==> new.password == old.password,
        url is None ==> new.url == old.url,
        notes is None ==> new.notes == old.notes,
        tags is None ==> new.tags == old.tags,
        service_name matches Some(v) ==> new.service_name == v,
        username matches Some(v) ==> new.username == v,
        password matches Some(v) ==> new.password == v,
        url matches Some(v) ==> new.url == Some(v),
        notes matches Some(v) ==> new.notes == Some(v),
        tags matches Some(v) ==> new.tags == v,
{
}

/// Law: an entry of the vault is shown by the desktop search exactly when the
/// lowercased query occurs in its lowercased service name, username, notes, or any
/// one of its lowercased tags, whichever tag that is.
pub proof fn lemma_desktop_search_matches_exactly_the_fields(entries: Seq<VaultEntry>, query_lower: Seq<char>, i: int)
    requires
        0 <= i < entries.len(),
    ensures
        entries.filter(desktop_matcher(query_lower)).contains(entries[i]) <==> (
            is_substring(query_lower, lowercase_chars(entries[i].service_name@))
            || is_substring(query_lower, lowercase_chars(entries[i].username@))
            || (entries[i].notes is Some && is_substring(query_lower, lowercase_chars(entries[i].notes.unwrap()@)))
            || exists|k: int| 0 <= k < entries[i].tags@.len()
                && is_substring(query_lower, lowercase_chars((#[trigger] entries[i].tags@[k])@))
        ),
{
    let e = entries[i];
    if entries.filter(desktop_matcher(query_lower)).contains(e) {
        entries.lemma_filter_contains_rev(desktop_matcher(query_lower), e);
        assert(desktop_entry_matches(e, query_lower));
    }
    if desktop_entry_matches(e, query_lower) {
        entries.lemma_filter_contains(desktop_matcher(query_lower), i);
    }
}

} // verus!
