use gt::workspace_cmd::{OfflineOutput, WorkspaceAction};

#[test]
fn use_is_offline_others_online() {
    assert!(WorkspaceAction::Use { id: "acme".into() }.run_offline());
    assert!(!WorkspaceAction::List.run_offline());
    assert!(WorkspaceAction::Use { id: "acme".into() }.online_call().is_none());
}

#[test]
fn list_maps_to_workspace_list_no_args() {
    let call = WorkspaceAction::List.online_call().unwrap();
    assert_eq!(call.tool, "workspace.list");
    assert!(call.args.is_empty());
}

#[test]
fn create_defaults_name_to_id_and_passes_id() {
    let call = WorkspaceAction::Create { id: "acme".into(), name: None }.online_call().unwrap();
    assert_eq!(call.tool, "workspace.create");
    assert_eq!(call.arg("id").as_deref(), Some("acme"));
    assert_eq!(call.arg("name").as_deref(), Some("acme"));
}

#[test]
fn create_keeps_explicit_name() {
    let call = WorkspaceAction::Create { id: "acme".into(), name: Some("Acme Inc".into()) }
        .online_call()
        .unwrap();
    assert_eq!(call.arg("name").as_deref(), Some("Acme Inc"));
}

#[test]
fn info_passes_id() {
    let call = WorkspaceAction::Info { id: "acme".into() }.online_call().unwrap();
    assert_eq!(call.tool, "workspace.info");
    assert_eq!(call.arg("id").as_deref(), Some("acme"));
}

#[test]
fn suspend_resume_and_archive_map_to_their_tools() {
    let c1 = WorkspaceAction::Suspend { id: "acme".into() }.online_call().unwrap();
    assert_eq!(c1.tool, "workspace.suspend");
    assert_eq!(c1.arg("id").as_deref(), Some("acme"));
    let cr = WorkspaceAction::Resume { id: "acme".into() }.online_call().unwrap();
    assert_eq!(cr.tool, "workspace.resume");
    assert_eq!(cr.arg("id").as_deref(), Some("acme"));
    let c2 = WorkspaceAction::Archive { id: "acme".into() }.online_call().unwrap();
    assert_eq!(c2.tool, "workspace.archive");
    assert_eq!(c2.arg("id").as_deref(), Some("acme"));
    // all online (not the offline `use`)
    assert!(!WorkspaceAction::Suspend { id: "acme".into() }.run_offline());
    assert!(!WorkspaceAction::Resume { id: "acme".into() }.run_offline());
    assert!(!WorkspaceAction::Archive { id: "acme".into() }.run_offline());
}

#[test]
fn use_prints_export_line_and_hint() {
    assert_eq!(
        WorkspaceAction::Use { id: "acme".into() }.offline_output(),
        Some(OfflineOutput {
            stdout: "export GT_WORKSPACE=acme".into(),
            stderr: "# run:  eval \"$(gt workspace use acme)\"   (or export it yourself)".into(),
        })
    );
    assert_eq!(WorkspaceAction::List.offline_output(), None);
    assert_eq!(WorkspaceAction::List.online_call().unwrap().arg("id"), None);
}
