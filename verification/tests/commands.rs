use vault_core::commands::{
    add_entry, delete_entry, generate_password_cmd, is_locked, list_entries, lock_vault,
    search_entries, update_entry, CommandResult, SerializableEntry, Step,
};
use vault_core::state::{AppState, LockStatus};
use vault_core::{Vault, VaultEntry};

fn open_state() -> AppState {
    let mut s = AppState::new();
    s.vault = Some(Vault::new());
    s.vault_path = Some("/tmp/vault.dat".to_string());
    s.master_password = Some("pw".to_string());
    s
}

fn saved<T>(step: Step<T>) -> T {
    match step {
        Step::Save(t) => t,
        Step::Reply(_) => panic!("expected a save"),
    }
}

fn error_of<T>(step: Step<T>) -> String {
    match step {
        Step::Reply(r) => {
            assert!(!r.success);
            r.error.unwrap()
        },
        Step::Save(_) => panic!("expected a reply"),
    }
}

#[test]
fn command_result_constructors() {
    let ok = CommandResult::ok(5);
    assert!(ok.success);
    assert_eq!(ok.data, Some(5));
    assert_eq!(ok.error, None);
    let err: CommandResult<i32> = CommandResult::err("boom".to_string());
    assert!(!err.success);
    assert_eq!(err.data, None);
    assert_eq!(err.error, Some("boom".to_string()));
}

#[test]
fn serializable_entry_shows_the_entry() {
    let e = VaultEntry::new(
        "GitHub".to_string(),
        "u".to_string(),
        "p".to_string(),
        Some("https://github.com".to_string()),
        Some("n".to_string()),
        vec!["dev".to_string(), "work".to_string()],
    );
    let s = SerializableEntry::from_entry(&e);
    assert_eq!(s.id, uuid::Uuid::from_u128(e.id).to_string());
    assert_eq!(s.id.as_bytes()[8], b'-');
    assert_eq!(s.id.len(), 36);
    assert_eq!(s.service_name, "GitHub");
    assert_eq!(s.url, e.url);
    assert_eq!(s.notes, e.notes);
    assert_eq!(s.tags, e.tags);
    assert_eq!(s.created_at, e.created_at);
}

#[test]
fn locked_session_refuses_commands() {
    let mut s = AppState::new();
    assert!(!s.is_unlocked());
    assert_eq!(is_locked(&s).data, Some(true));
    let r = list_entries(&s);
    assert!(!r.success);
    assert_eq!(r.error.as_deref(), Some("Le coffre est verrouillé"));
    assert_eq!(search_entries("x", &s).error.as_deref(), Some("Le coffre est verrouillé"));
    let step = add_entry("a".into(), "b".into(), "c".into(), None, None, vec![], &mut s);
    assert_eq!(error_of(step), "Le coffre est verrouillé");
    assert_eq!(error_of(delete_entry("x", &mut s)), "Le coffre est verrouillé");
    assert!(s.vault.is_none());
}

#[test]
fn add_list_update_delete() {
    let mut s = open_state();
    assert_eq!(is_locked(&s).data, Some(false));
    let shown = saved(add_entry(
        "GitHub".into(),
        "alice".into(),
        "secret".into(),
        None,
        None,
        vec!["dev".into()],
        &mut s,
    ));
    saved(add_entry("Gmail".into(), "bob".into(), "x".into(), None, None, vec![], &mut s));
    let listed = list_entries(&s).data.unwrap();
    assert_eq!(listed.len(), 2);
    assert_eq!(listed[0].id, shown.id);
    let found = search_entries("GIT", &s).data.unwrap();
    assert_eq!(found.len(), 1);
    assert_eq!(found[0].username, "alice");

    let updated = saved(update_entry(
        &shown.id,
        None,
        Some("carol".into()),
        None,
        Some("https://github.com".into()),
        None,
        None,
        &mut s,
    ));
    assert_eq!(updated.username, "carol");
    assert_eq!(updated.service_name, "GitHub");
    assert_eq!(updated.password, "secret");
    assert_eq!(updated.url.as_deref(), Some("https://github.com"));
    assert_eq!(updated.tags, vec!["dev".to_string()]);
    assert_eq!(updated.id, shown.id);

    assert_eq!(error_of(update_entry("not-an-id", None, None, None, None, None, None, &mut s)), "ID invalide");
    let absent = "00000000-0000-4000-8000-000000000000";
    assert_eq!(error_of(update_entry(absent, None, None, None, None, None, None, &mut s)), "Entrée non trouvée");
    assert_eq!(error_of(delete_entry(absent, &mut s)), "Entrée non trouvée");

    saved(delete_entry(&shown.id, &mut s));
    let listed = list_entries(&s).data.unwrap();
    assert_eq!(listed.len(), 1);
    assert_eq!(listed[0].service_name, "Gmail");
}

#[test]
fn locking_forgets_vault_and_password() {
    let mut s = open_state();
    let r = lock_vault(&mut s);
    assert!(r.success);
    assert!(s.vault.is_none());
    assert!(s.master_password.is_none());
    assert_eq!(s.vault_path.as_deref(), Some("/tmp/vault.dat"));
    assert_eq!(is_locked(&s).data, Some(true));
    let status = LockStatus { is_locked: true, vault_path: s.vault_path.clone() };
    assert!(status.is_locked);
}

#[test]
fn password_command() {
    let r = generate_password_cmd(12, true, true, true, false, true);
    assert!(r.success);
    assert_eq!(r.data.unwrap().len(), 12);
    let r = generate_password_cmd(2, true, true, true, true, true);
    assert!(!r.success);
    assert_eq!(r.error.as_deref(), Some("La longueur minimale est de 4 caractères"));
}

#[test]
fn desktop_search_looks_in_notes() {
    let mut s = open_state();
    saved(add_entry(
        "Bank".into(),
        "dave".into(),
        "pw1".into(),
        None,
        Some("PIN kept in the Blue folder".into()),
        vec![],
        &mut s,
    ));
    saved(add_entry("Mail".into(), "erin".into(), "pw2".into(), None, None, vec![], &mut s));
    let found = search_entries("blue", &s).data.unwrap();
    assert_eq!(found.len(), 1);
    assert_eq!(found[0].service_name, "Bank");
    let all = search_entries("", &s).data.unwrap();
    assert_eq!(all.len(), 2);
    assert_eq!(search_entries("nowhere", &s).data.unwrap().len(), 0);
}

#[test]
fn unlock_opens_a_session() {
    let mut s = AppState::new();
    s.unlock(Vault::new(), "/tmp/v.dat".to_string(), "pw".to_string());
    assert!(s.is_unlocked());
    assert_eq!(s.vault_path.as_deref(), Some("/tmp/v.dat"));
    assert_eq!(s.master_password.as_deref(), Some("pw"));
    assert_eq!(list_entries(&s).data.unwrap().len(), 0);
}

#[test]
fn update_refreshes_the_update_time() {
    let mut s = open_state();
    let shown = saved(add_entry("Site".into(), "u".into(), "p".into(), None, None, vec![], &mut s));
    if let Some(v) = s.vault.as_mut() {
        v.entries[0].updated_at = -5;
    }
    let updated = saved(update_entry(&shown.id, None, None, None, None, None, None, &mut s));
    assert!(updated.updated_at >= shown.created_at);
    assert_eq!(updated.created_at, shown.created_at);
}
