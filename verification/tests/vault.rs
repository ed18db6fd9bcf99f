use vault_core::ids::{find_entry, resolve_entry_id};
use vault_core::{SecretString, Vault, VaultEntry};

fn entry(service: &str, user: &str, tags: &[&str]) -> VaultEntry {
    VaultEntry::new(
        service.to_string(),
        user.to_string(),
        "pw".to_string(),
        None,
        None,
        tags.iter().map(|t| t.to_string()).collect(),
    )
}

#[test]
fn new_vault_is_empty() {
    let v = Vault::new();
    assert!(v.entries.is_empty());
    assert_eq!(v.created_at, v.updated_at);
    assert!(v.created_at > 1_600_000_000);
    let d = Vault::default();
    assert!(d.list_entries().is_empty());
}

#[test]
fn new_entry_fields_and_id() {
    let e = VaultEntry::new(
        "GitHub".to_string(),
        "user@example.com".to_string(),
        "password123".to_string(),
        Some("https://github.com".to_string()),
        None,
        vec!["dev".to_string()],
    );
    assert_eq!(e.service_name, "GitHub");
    assert_eq!(e.username, "user@example.com");
    assert_eq!(e.password, "password123");
    assert_eq!(e.url.as_deref(), Some("https://github.com"));
    assert_eq!(e.notes, None);
    assert_eq!(e.tags, vec!["dev".to_string()]);
    assert_eq!(e.created_at, e.updated_at);
    assert_eq!((e.id >> 76) & 0xF, 4);
    assert_eq!((e.id >> 62) & 0x3, 2);
    let other = entry("GitHub", "u", &[]);
    assert_ne!(other.id, e.id);
    assert!(Vault::new().created_at >= e.created_at);
}

#[test]
fn add_get_remove() {
    let mut v = Vault::new();
    let a = entry("GitHub", "alice", &["dev"]);
    let b = entry("Gmail", "bob", &["mail"]);
    let (ia, ib) = (a.id, b.id);
    let created = v.created_at;
    v.add_entry(a);
    v.add_entry(b);
    assert_eq!(v.list_entries().len(), 2);
    assert_eq!(v.list_entries()[1].service_name, "Gmail");
    assert_eq!(v.created_at, created);
    assert_eq!(v.get_entry(&ia).unwrap().username, "alice");
    assert_eq!(v.get_entry(&ib).unwrap().username, "bob");
    assert!(v.get_entry(&12345).is_none());
    let removed = v.remove_entry(&ia).unwrap();
    assert_eq!(removed.service_name, "GitHub");
    assert_eq!(v.entries.len(), 1);
    assert!(v.get_entry(&ia).is_none());
    assert!(v.remove_entry(&ia).is_none());
    assert_eq!(v.entries.len(), 1);
}

#[test]
fn remove_of_unknown_id_changes_nothing() {
    let mut v = Vault::new();
    v.add_entry(entry("A", "a", &[]));
    let before = v.updated_at;
    assert!(v.remove_entry(&7).is_none());
    assert_eq!(v.updated_at, before);
    assert_eq!(v.entries.len(), 1);
}

#[test]
fn get_entry_mut_changes_in_place() {
    let mut v = Vault::new();
    let a = entry("GitHub", "alice", &[]);
    let id = a.id;
    v.add_entry(a);
    v.add_entry(entry("Other", "x", &[]));
    {
        let e = v.get_entry_mut(&id).unwrap();
        e.username = "carol".to_string();
    }
    assert_eq!(v.entries[0].username, "carol");
    assert_eq!(v.entries[1].username, "x");
    assert!(v.get_entry_mut(&1).is_none());
}

#[test]
fn search_ignores_case_and_looks_at_tags() {
    let mut v = Vault::new();
    v.add_entry(entry("GitHub", "dev@company.com", &["work"]));
    v.add_entry(entry("Gmail", "personal@gmail.com", &["email", "personal"]));
    v.add_entry(entry("Slack", "john@work.com", &["Work", "communication"]));
    let names = |q: &str| -> Vec<String> { v.search(q).iter().map(|e| e.service_name.clone()).collect() };
    assert_eq!(names("github"), vec!["GitHub"]);
    assert_eq!(names("WORK"), vec!["GitHub", "Slack"]);
    assert_eq!(names("@gmail.com"), vec!["Gmail"]);
    assert_eq!(names("ÉTÉ"), Vec::<String>::new());
    assert_eq!(names(""), vec!["GitHub", "Gmail", "Slack"]);
    assert_eq!(names("nothing"), Vec::<String>::new());
}

#[test]
fn secret_string() {
    let s = SecretString::new("hunter2".to_string());
    assert_eq!(s.as_str(), "hunter2");
    let t: SecretString = String::from("abc").into();
    assert_eq!(t.as_str(), "abc");
}

fn uuid_to_string(id: u128) -> String {
    uuid::Uuid::from_u128(id).to_string()
}

#[test]
fn uuid_queries_in_every_form() {
    let v = Vault::new();
    let id: u128 = 0xa1a2a3a4b1b2c1c2d1d2d3d4d5d6d7d8;
    assert_eq!(resolve_entry_id(&v, "a1a2a3a4-b1b2-c1c2-d1d2-d3d4d5d6d7d8"), Some(id));
    assert_eq!(resolve_entry_id(&v, "A1A2A3A4B1B2C1C2D1D2D3D4D5D6D7D8"), Some(id));
    assert_eq!(resolve_entry_id(&v, "GitHub"), None);
}

#[test]
fn queries_pick_entries_by_id_or_name() {
    let mut v = Vault::new();
    let a = entry("GitHub", "alice", &[]);
    let b = entry("github", "bob", &[]);
    let ida = a.id;
    v.add_entry(a);
    v.add_entry(b);
    assert_eq!(resolve_entry_id(&v, "GITHUB"), Some(ida));
    assert_eq!(find_entry(&v, "gitHub").unwrap().username, "alice");
    assert_eq!(resolve_entry_id(&v, &uuid_to_string(ida)), Some(ida));
    assert_eq!(find_entry(&v, &uuid_to_string(ida)).unwrap().username, "alice");
    assert_eq!(resolve_entry_id(&v, "gitlab"), None);
    assert!(find_entry(&v, "gitlab").is_none());
    let unknown = "00000000-0000-4000-8000-000000000000";
    assert_eq!(resolve_entry_id(&v, unknown), Some(0x00000000_0000_4000_8000_000000000000));
    assert!(find_entry(&v, unknown).is_none());
}

#[test]
fn touch_sets_only_the_update_time() {
    let mut e = entry("Site", "user", &["a"]);
    e.updated_at = -1;
    let before = e.clone();
    e.touch();
    assert!(e.updated_at >= 0);
    assert_eq!(e.id, before.id);
    assert_eq!(e.created_at, before.created_at);
    assert_eq!(e.service_name, before.service_name);
    assert_eq!(e.tags, before.tags);
}
