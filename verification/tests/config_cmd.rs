use gt::config_cmd::{list_lines, show_config, show_lines};
use gt::project_config::{ActiveError, ActivePointer, ConfigStore, ProjectConfig, StoreError};

fn cfg(ws: &str, token: &str, role: Option<&str>) -> ProjectConfig {
    ProjectConfig {
        server_url: "https://h".into(),
        workspace: ws.into(),
        rig: "core".into(),
        role: role.map(String::from),
        access_token: token.into(),
        refresh_token: "secret-refresh".into(),
    }
}

fn store() -> ConfigStore {
    let mut s = ConfigStore::at("/repo".into());
    s.load("globex", Some(cfg("globex", "tok", None)));
    s.load("acme", Some(cfg("acme", "héllo", Some("sheriff"))));
    s
}

#[test]
fn list_marks_the_active_config() {
    let mut s = store();
    assert_eq!(list_lines(&s), Ok(vec!["  acme".to_string(), "  globex".to_string()]));
    s.load_pointer(ActivePointer::Named("globex".into()));
    assert_eq!(list_lines(&s), Ok(vec!["  acme".to_string(), "* globex".to_string()]));
    s.load_pointer(ActivePointer::Unreadable);
    assert_eq!(list_lines(&s), Err(StoreError::PointerUnreadable));
    let empty = ConfigStore::at("/repo".into());
    assert_eq!(list_lines(&empty), Ok(Vec::new()));
}

#[test]
fn show_redacts_tokens() {
    let mut s = store();
    s.load_pointer(ActivePointer::Named("acme".into()));
    let lines = show_lines(&s).unwrap();
    assert_eq!(
        lines,
        vec![
            "name:       acme",
            "server_url: https://h",
            "workspace:  acme",
            "rig:        core",
            "role:       sheriff",
            "access_token:  <redacted, 6 chars>",
            "refresh_token: <redacted>",
        ]
    );
    assert!(lines.iter().all(|l| !l.contains("héllo") && !l.contains("secret-refresh")));
    let other = show_config("globex", &cfg("globex", "tok", None));
    assert_eq!(other[4], "role:       (none)");
    assert_eq!(other[5], "access_token:  <redacted, 3 chars>");
}

#[test]
fn show_without_an_active_config() {
    let mut s = store();
    assert_eq!(show_lines(&s), Err(ActiveError::NoActive));
    s.load_pointer(ActivePointer::Named("ghost".into()));
    assert_eq!(show_lines(&s), Err(ActiveError::ActiveMissing("ghost".into())));
    s.load("broken", None);
    s.load_pointer(ActivePointer::Named("broken".into()));
    assert_eq!(
        show_lines(&s),
        Err(ActiveError::Store(StoreError::Unreadable("broken".into())))
    );
    s.load_pointer(ActivePointer::Unreadable);
    assert_eq!(show_lines(&s), Err(ActiveError::Store(StoreError::PointerUnreadable)));
}
