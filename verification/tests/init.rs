use gt::init::{
    pick_rig, pick_workspace, rig_label, workspace_label, InitAction, InitArgs, InitError,
    InitEvent, Phase, RigEntry, Tokens, Wizard, WorkspaceEntry, DEFAULT_SERVER,
};
use gt::project_config::ProjectConfig;

fn ws(id: &str, name: &str) -> WorkspaceEntry {
    WorkspaceEntry { id: id.into(), name: name.into(), status: "active".into() }
}

fn strings(v: &[&str]) -> Vec<String> {
    v.iter().map(|s| s.to_string()).collect()
}

fn ids(v: &[&str]) -> Vec<String> {
    v.iter().map(|s| s.to_string()).collect()
}

fn rig(name: &str, prefix: &str) -> RigEntry {
    RigEntry { name: name.into(), prefix: prefix.into() }
}

#[test]
fn default_args_prompt_for_everything() {
    let a = InitArgs::default();
    assert!(a.server.is_none() && a.token.is_none() && a.workspace.is_none());
    assert!(a.rig.is_none() && a.role.is_none() && a.name.is_none());
    assert!(!a.no_interactive);
    assert_eq!(DEFAULT_SERVER, "http://127.0.0.1:8765");
}

#[test]
fn a_pat_has_no_refresh_leg() {
    let t = Tokens::from_pat("gtpat_abc");
    assert_eq!(t.access_token, "gtpat_abc");
    assert_eq!(t.refresh_token, "");
}

#[test]
fn workspace_flag_is_checked_against_the_catalog() {
    let catalog = ids(&["acme", "globex"]);
    assert_eq!(pick_workspace(Some("globex"), &catalog), Ok(Some("globex".into())));
    assert_eq!(pick_workspace(None, &catalog), Ok(None));
    assert_eq!(
        pick_workspace(Some("acmee"), &catalog),
        Err(InitError::UnknownWorkspace("acmee".into(), "acme, globex".into()))
    );
    assert_eq!(pick_workspace(Some("acme"), &Vec::new()), Err(InitError::NoWorkspaces));
    assert_eq!(pick_workspace(None, &Vec::new()), Err(InitError::NoWorkspaces));
}

#[test]
fn rig_flag_matches_name_or_prefix_and_yields_the_prefix() {
    let rigs = vec![rig("core", "hq"), rig("web", "core"), rig("ops", "op")];
    // the first rig whose name OR prefix matches wins
    assert_eq!(pick_rig(Some("core"), &rigs, "acme"), Ok(Some("hq".into())));
    assert_eq!(pick_rig(Some("op"), &rigs, "acme"), Ok(Some("op".into())));
    assert_eq!(pick_rig(Some("web"), &rigs, "acme"), Ok(Some("core".into())));
    assert_eq!(pick_rig(None, &rigs, "acme"), Ok(None));
    assert_eq!(
        pick_rig(Some("nope"), &rigs, "acme"),
        Err(InitError::UnknownRig("nope".into(), "acme".into(), "core, web, ops".into()))
    );
    assert_eq!(pick_rig(Some("core"), &Vec::new(), "acme"), Err(InitError::NoRigs("acme".into())));
}

#[test]
fn menu_labels() {
    assert_eq!(workspace_label("acme", "Acme Inc", "active"), "acme  (Acme Inc, active)");
    assert_eq!(rig_label("core", "hq"), "core  (prefix hq)");
}

#[test]
fn headless_run_needs_no_prompt() {
    let args = InitArgs {
        server: Some("https://gt.example.com/".into()),
        token: Some("gtpat_x".into()),
        workspace: Some("acme".into()),
        rig: Some("core".into()),
        role: Some("sheriff".into()),
        name: Some("acme-core".into()),
        no_interactive: true,
    };
    let (w, a) = Wizard::start(args);
    assert_eq!(
        a,
        InitAction::ListWorkspaces {
            server: "https://gt.example.com/".into(),
            access_token: "gtpat_x".into()
        }
    );
    let (w, a) = w.step(InitEvent::Workspaces(vec![ws("acme", "Acme"), ws("globex", "Globex")]));
    assert_eq!(
        a,
        InitAction::ListRigs {
            server: "https://gt.example.com/".into(),
            access_token: "gtpat_x".into(),
            workspace: "acme".into()
        }
    );
    let (w, a) = w.step(InitEvent::Rigs(vec![rig("core", "hq"), rig("web", "wb")]));
    assert_eq!(w.phase, Phase::Done);
    assert_eq!(
        a,
        InitAction::Save {
            name: "acme-core".into(),
            config: ProjectConfig {
                server_url: "https://gt.example.com/".into(),
                workspace: "acme".into(),
                rig: "hq".into(),
                role: Some("sheriff".into()),
                access_token: "gtpat_x".into(),
                refresh_token: "".into(),
            }
        }
    );
}

#[test]
fn interactive_run_prompts_for_each_value() {
    let (w, a) = Wizard::start(InitArgs::default());
    assert_eq!(
        a,
        InitAction::Prompt { label: "Server URL".into(), default: Some(DEFAULT_SERVER.into()) }
    );
    let (w, a) = w.step(InitEvent::Answer("http://127.0.0.1:8765/".into()));
    assert_eq!(a, InitAction::BrowserLogin { server: "http://127.0.0.1:8765".into() });
    let tokens = Tokens { access_token: "acc".into(), refresh_token: "ref".into() };
    let (w, a) = w.step(InitEvent::LoggedIn(tokens));
    assert_eq!(
        a,
        InitAction::ListWorkspaces { server: "http://127.0.0.1:8765/".into(), access_token: "acc".into() }
    );
    let (w, a) = w.step(InitEvent::Workspaces(vec![ws("acme", "Acme"), ws("globex", "Globex")]));
    assert_eq!(
        a,
        InitAction::Select {
            label: "Workspace".into(),
            options: strings(&["acme  (Acme, active)", "globex  (Globex, active)"])
        }
    );
    let (w, a) = w.step(InitEvent::Answer("globex  (Globex, active)".into()));
    assert_eq!(
        a,
        InitAction::ListRigs {
            server: "http://127.0.0.1:8765/".into(),
            access_token: "acc".into(),
            workspace: "globex".into()
        }
    );
    let (w, a) = w.step(InitEvent::Rigs(vec![rig("core", "hq"), rig("web", "wb")]));
    assert_eq!(
        a,
        InitAction::Select {
            label: "Rig".into(),
            options: strings(&["core  (prefix hq)", "web  (prefix wb)"])
        }
    );
    let (w, a) = w.step(InitEvent::Answer("web  (prefix wb)".into()));
    assert_eq!(
        a,
        InitAction::Prompt { label: "Config name".into(), default: Some("globex".into()) }
    );
    assert!(w.accepts(&InitEvent::Answer("x".into())));
    assert!(!w.accepts(&InitEvent::Rigs(Vec::new())));
    let (w, a) = w.step(InitEvent::Answer("mine".into()));
    assert_eq!(w.phase, Phase::Done);
    assert_eq!(
        a,
        InitAction::Save {
            name: "mine".into(),
            config: ProjectConfig {
                server_url: "http://127.0.0.1:8765/".into(),
                workspace: "globex".into(),
                rig: "wb".into(),
                role: None,
                access_token: "acc".into(),
                refresh_token: "ref".into(),
            }
        }
    );
}

#[test]
fn yes_turns_a_prompt_into_an_error() {
    let args = InitArgs { no_interactive: true, ..InitArgs::default() };
    let (w, a) = Wizard::start(args);
    assert_eq!(w.phase, Phase::Done);
    assert_eq!(a, InitAction::Fail(InitError::Missing("Server URL".into())));

    let args = InitArgs {
        server: Some("https://h".into()),
        token: Some("t".into()),
        no_interactive: true,
        ..InitArgs::default()
    };
    let (w, _) = Wizard::start(args.clone());
    let (_, a) = w.step(InitEvent::Workspaces(vec![ws("acme", "Acme")]));
    assert_eq!(a, InitAction::Fail(InitError::Missing("Workspace".into())));

    let (w, _) = Wizard::start(InitArgs { workspace: Some("acme".into()), ..args.clone() });
    let (w, _) = w.step(InitEvent::Workspaces(vec![ws("acme", "Acme")]));
    let (_, a) = w.step(InitEvent::Rigs(vec![rig("core", "hq")]));
    assert_eq!(a, InitAction::Fail(InitError::Missing("Rig".into())));

    let (w, _) = Wizard::start(InitArgs {
        workspace: Some("acme".into()),
        rig: Some("hq".into()),
        ..args
    });
    let (w, _) = w.step(InitEvent::Workspaces(vec![ws("acme", "Acme")]));
    let (_, a) = w.step(InitEvent::Rigs(vec![rig("core", "hq")]));
    assert_eq!(a, InitAction::Fail(InitError::Missing("Config name".into())));
}

#[test]
fn catalog_errors_stop_the_wizard() {
    let args = InitArgs {
        server: Some("https://h".into()),
        token: Some("t".into()),
        workspace: Some("nope".into()),
        ..InitArgs::default()
    };
    let (w, _) = Wizard::start(args.clone());
    let (_, a) = w.step(InitEvent::Workspaces(Vec::new()));
    assert_eq!(a, InitAction::Fail(InitError::NoWorkspaces));
    let (w, _) = Wizard::start(args.clone());
    let (w2, a) = w.step(InitEvent::Workspaces(vec![ws("acme", "Acme"), ws("globex", "G")]));
    assert_eq!(w2.phase, Phase::Done);
    assert_eq!(
        a,
        InitAction::Fail(InitError::UnknownWorkspace("nope".into(), "acme, globex".into()))
    );
    let (w, _) = Wizard::start(InitArgs { workspace: Some("acme".into()), ..args });
    let (w, _) = w.step(InitEvent::Workspaces(vec![ws("acme", "Acme")]));
    let (_, a) = w.step(InitEvent::Rigs(Vec::new()));
    assert_eq!(a, InitAction::Fail(InitError::NoRigs("acme".into())));
}
