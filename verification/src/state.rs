//! The state of a desktop session: the open vault, its file and its master password.
use vstd::prelude::*;
use crate::vault::Vault;

verus! {

/// What a session holds. The vault and the master password are kept only while
/// the vault is unlocked; the application guards the whole state with a lock.
pub struct AppState {
    pub vault: Option<Vault>,
    pub vault_path: Option<String>,
    pub master_password: Option<String>,
}

impl AppState {
    /// A session with nothing open.
    pub fn new() -> (s: Self)
        ensures
            s.vault is None,
            s.vault_path is None,
            s.master_password is None,
    {
        AppState { vault: None, vault_path: None, master_password: None }
    }

    /// Whether a vault is open.
    pub fn is_unlocked(&self) -> (r: bool)
        ensures
            r == self.vault is Some,
    {
        self.vault.is_some()
    }

    /// Opens a session on a vault read from (or just written to) a file, keeping
    /// the master password to save it again.
    pub fn unlock(&mut self, vault: Vault, path: String, master_password: String)
        ensures
            final(self).vault == Some(vault),
            final(self).vault_path == Some(path),
            final(self).master_password == Some(master_password),
    {
        self.vault = Some(vault);
        self.vault_path = Some(path);
        self.master_password = Some(master_password);
    }

    /// Forgets the open vault and the master password; the file path stays.
    pub fn lock(&mut self)
        ensures
            final(self).vault is None,
            final(self).master_password is None,
            final(self).vault_path == old(self).vault_path,
    {
        self.vault = None;
        self.master_password = None;
    }
}

impl Default for AppState {
    fn default() -> (s: Self)
        ensures
            s.vault is None,
            s.vault_path is None,
            s.master_password is None,
    {
        AppState::new()
    }
}

/// Whether the session is locked, and which file it is about.
pub struct LockStatus {
    pub is_locked: bool,
    pub vault_path: Option<String>,
}

} // verus!
