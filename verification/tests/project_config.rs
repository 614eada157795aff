use gt::project_config::{
    config_names, ensure_gitignored, find_repo_root, normalize_server_url, save_writes,
    ActivePointer, Ancestor, ConfigStore, ProjectConfig, SaveWrite, StoreError,
};

fn sample(ws: &str) -> ProjectConfig {
    ProjectConfig {
        server_url: "http://127.0.0.1:8765".into(),
        workspace: ws.into(),
        rig: "core".into(),
        role: None,
        access_token: "access".into(),
        refresh_token: "refresh".into(),
    }
}

#[test]
fn normalize_strips_mcp_and_slash() {
    assert_eq!(normalize_server_url("https://h/mcp"), "https://h");
    assert_eq!(normalize_server_url("https://h/mcp/"), "https://h");
    assert_eq!(normalize_server_url("https://h/"), "https://h");
    assert_eq!(
        normalize_server_url("http://127.0.0.1:8765"),
        "http://127.0.0.1:8765"
    );
    assert_eq!(normalize_server_url("  https://h/mcp  "), "https://h");
}

#[test]
fn normalize_strips_only_one_mcp() {
    assert_eq!(normalize_server_url("https://h/mcp/mcp"), "https://h/mcp");
    assert_eq!(normalize_server_url("https://h//"), "https://h");
    assert_eq!(normalize_server_url("/mcp"), "");
}

#[test]
fn ensure_gitignored_creates_when_absent() {
    let changed = ensure_gitignored(None);
    assert_eq!(changed.as_deref(), Some(".gt-config/\n"));
}

#[test]
fn ensure_gitignored_appends_when_missing_entry() {
    assert_eq!(
        ensure_gitignored(Some("target/\n")).as_deref(),
        Some("target/\n.gt-config/\n")
    );
    assert_eq!(
        ensure_gitignored(Some("target/")).as_deref(),
        Some("target/\n.gt-config/\n")
    );
    assert_eq!(ensure_gitignored(Some("")).as_deref(), Some(".gt-config/\n"));
}

#[test]
fn ensure_gitignored_noop_when_present() {
    assert_eq!(ensure_gitignored(Some("a/\n.gt-config/\nb/\n")), None);
}

#[test]
fn ensure_gitignored_accepts_unslashed_entry() {
    assert_eq!(ensure_gitignored(Some(".gt-config\n")), None);
    assert_eq!(ensure_gitignored(Some("x\r\n  .gt-config/  \r\n")), None);
    assert!(ensure_gitignored(Some("# .gt-config/\n")).is_some());
}

#[test]
fn ensure_gitignored_is_idempotent() {
    for start in [None, Some(""), Some("target/"), Some("a\nb\n")] {
        let once = ensure_gitignored(start).unwrap();
        assert_eq!(ensure_gitignored(Some(&once)), None);
    }
}

#[test]
fn save_get_roundtrip_and_active() {
    let mut store = ConfigStore::at("/tmp/project".to_string());
    store.save("acme", &sample("acme"), true).unwrap();
    store.save("globex", &sample("globex"), false).unwrap();

    assert_eq!(store.get("acme").unwrap().unwrap(), sample("acme"));
    assert_eq!(store.list(), vec!["acme", "globex"]);
    assert_eq!(store.active_name().unwrap().as_deref(), Some("acme"));
    assert_eq!(store.active().unwrap().unwrap().workspace, "acme");

    store.set_active("globex").unwrap();
    assert_eq!(store.active().unwrap().unwrap().workspace, "globex");
}

#[test]
fn save_ignores_dir_and_get_missing_is_none() {
    let mut store = ConfigStore::at("/tmp/project".to_string());
    store.save("acme", &sample("acme"), true).unwrap();
    assert!(store.get("nope").unwrap().is_none());
    // the save writes a `.gitignore` that ignores `.gt-config/` before the config itself
    let writes = save_writes(Some(""), true);
    assert_eq!(writes[0], SaveWrite::Gitignore(".gt-config/\n".into()));
    assert!(matches!(writes[0], SaveWrite::Gitignore(ref t) if t.lines().any(|l| l.trim() == ".gt-config/")));
}

#[test]
fn set_active_rejects_unknown() {
    let mut store = ConfigStore::at("/tmp/project".to_string());
    assert!(store.set_active("ghost").is_err());
    assert_eq!(
        store.set_active("ghost"),
        Err(StoreError::NoSuchConfig("ghost".to_string()))
    );
}

#[test]
fn list_empty_when_no_dir() {
    let store = ConfigStore::at("/tmp/project".to_string());
    assert!(store.list().is_empty());
    assert!(store.active().unwrap().is_none());
}

#[test]
fn unreadable_entries_and_pointer_are_errors() {
    let mut store = ConfigStore::at("/r".to_string());
    store.load("broken", None);
    store.load("ok", Some(sample("ok")));
    assert_eq!(store.list(), vec!["broken", "ok"]);
    assert_eq!(
        store.get("broken"),
        Err(StoreError::Unreadable("broken".to_string()))
    );
    assert!(store.set_active("broken").is_err());
    store.load_pointer(ActivePointer::Named("ok".to_string()));
    assert_eq!(store.active().unwrap().unwrap().workspace, "ok");
    store.load_pointer(ActivePointer::Unreadable);
    assert_eq!(store.active_name(), Err(StoreError::PointerUnreadable));
    store.load_pointer(ActivePointer::Named("gone".to_string()));
    assert_eq!(store.active(), Ok(None));
}

#[test]
fn paths_are_under_the_root() {
    let store = ConfigStore::at("/r".to_string());
    assert_eq!(store.dir(), "/r/.gt-config");
    assert_eq!(store.named_path("acme"), "/r/.gt-config/acme.toml");
    assert_eq!(store.active_path(), "/r/.gt-config/config.toml");
    assert_eq!(ConfigStore::at("/r/".to_string()).dir(), "/r/.gt-config");
    assert_eq!(ConfigStore::at(String::new()).dir(), ".gt-config");
}

#[test]
fn config_names_filters_and_sorts() {
    let files: Vec<String> = ["zeta.toml", "config.toml", "acme.toml", ".toml", "notes.txt", "a.b.toml", "é.toml", "B.toml"]
        .iter()
        .map(|s| s.to_string())
        .collect();
    assert_eq!(config_names(&files), vec!["B", "a.b", "acme", "zeta", "é"]);
}

#[test]
fn find_repo_root_walks_up() {
    let ancestors = vec![
        Ancestor { path: "/t/a/b/c".into(), has_git: false },
        Ancestor { path: "/t/a/b".into(), has_git: false },
        Ancestor { path: "/t".into(), has_git: true },
        Ancestor { path: "/".into(), has_git: true },
    ];
    assert_eq!(find_repo_root("/t/a/b/c", &ancestors), "/t");
    assert_eq!(find_repo_root("/x", &ancestors[..2].to_vec()), "/x");
}

#[test]
fn gitignore_is_written_before_the_token() {
    assert_eq!(
        save_writes(None, true),
        vec![
            SaveWrite::Gitignore(".gt-config/\n".into()),
            SaveWrite::ConfigDir,
            SaveWrite::Config,
            SaveWrite::Pointer
        ]
    );
    assert_eq!(
        save_writes(Some("target/"), false),
        vec![
            SaveWrite::Gitignore("target/\n.gt-config/\n".into()),
            SaveWrite::ConfigDir,
            SaveWrite::Config
        ]
    );
    assert_eq!(
        save_writes(Some("a/\n.gt-config\n"), true),
        vec![SaveWrite::ConfigDir, SaveWrite::Config, SaveWrite::Pointer]
    );
}
