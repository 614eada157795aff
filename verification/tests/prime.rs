use gt::config::{config_path, Config};
use gt::prime::{
    grace_note, opt_in_enabled, prime_context, render_text, resolve_workspace, PrimeContext,
    PrimeEnv, Resolved,
};
use gt::project_config::ProjectConfig;

fn env(ws: Option<&str>, opt_in: Option<&str>) -> PrimeEnv {
    PrimeEnv {
        workspace: ws.map(str::to_string),
        default_opt_in: opt_in.map(str::to_string),
        role: None,
        rig: None,
    }
}

/// A config with no defaults — isolates env-only precedence tests from any on-disk file.
fn no_cfg() -> Config {
    Config::default()
}

/// A config carrying a `default_workspace`.
fn cfg_ws(ws: &str) -> Config {
    Config {
        default_workspace: Some(ws.to_string()),
    }
}

fn proj(ws: &str, rig: &str, role: Option<&str>) -> ProjectConfig {
    ProjectConfig {
        server_url: "https://h".into(),
        workspace: ws.into(),
        rig: rig.into(),
        role: role.map(str::to_string),
        access_token: "a".into(),
        refresh_token: "r".into(),
    }
}

#[test]
fn env_workspace_resolves() {
    assert!(matches!(resolve_workspace(&env(Some("acme"), None), &no_cfg(), None), Resolved::Env(ws) if ws == "acme"));
}

#[test]
fn empty_workspace_is_unset() {
    assert!(matches!(
        resolve_workspace(&env(Some(""), None), &no_cfg(), None),
        Resolved::Missing
    ));
}

#[test]
fn missing_without_opt_in_aborts() {
    assert!(matches!(
        resolve_workspace(&env(None, None), &no_cfg(), None),
        Resolved::Missing
    ));
}

#[test]
fn opt_in_falls_back_to_default() {
    assert!(matches!(
        resolve_workspace(&env(None, Some("1")), &no_cfg(), None),
        Resolved::GraceDefault
    ));
}

#[test]
fn opt_in_negative_value_still_aborts() {
    assert!(matches!(
        resolve_workspace(&env(None, Some("0")), &no_cfg(), None),
        Resolved::Missing
    ));
}

#[test]
fn explicit_workspace_wins_over_opt_in() {
    assert!(matches!(resolve_workspace(&env(Some("acme"), Some("1")), &no_cfg(), None), Resolved::Env(ws) if ws == "acme"));
}

#[test]
fn config_default_used_when_env_unset() {
    assert!(matches!(
        resolve_workspace(&env(None, None), &cfg_ws("beta"), None),
        Resolved::ConfigDefault(ws) if ws == "beta"
    ));
}

#[test]
fn env_workspace_wins_over_config_default() {
    assert!(matches!(
        resolve_workspace(&env(Some("acme"), None), &cfg_ws("beta"), None),
        Resolved::Env(ws) if ws == "acme"
    ));
}

#[test]
fn config_default_wins_over_grace_opt_in() {
    assert!(matches!(
        resolve_workspace(&env(None, Some("1")), &cfg_ws("beta"), None),
        Resolved::ConfigDefault(ws) if ws == "beta"
    ));
}

#[test]
fn project_config_ranks_between_env_and_default() {
    let p = proj("gamma", "core", None);
    assert_eq!(
        resolve_workspace(&env(None, None), &cfg_ws("beta"), Some(&p)),
        Resolved::ProjectConfig("gamma".into())
    );
    assert_eq!(
        resolve_workspace(&env(Some("acme"), None), &cfg_ws("beta"), Some(&p)),
        Resolved::Env("acme".into())
    );
    let empty = proj("", "core", None);
    assert_eq!(
        resolve_workspace(&env(None, None), &cfg_ws("beta"), Some(&empty)),
        Resolved::ConfigDefault("beta".into())
    );
}

#[test]
fn opt_in_values() {
    for (v, on) in [("1", true), ("true", true), ("yes", true), ("0", false), ("false", false), ("FALSE", false), ("No", false), ("", false), ("nope", true)] {
        assert_eq!(opt_in_enabled(&Some(v.to_string())), on, "{v}");
    }
    assert!(!opt_in_enabled(&None));
}

#[test]
fn context_role_and_rig_precedence() {
    let p = proj("gamma", "core", Some("deacon"));
    let mut e = env(None, None);
    let c = prime_context(&e, &no_cfg(), Some(&p)).unwrap();
    assert_eq!(c, PrimeContext { workspace: "gamma".into(), source: "gt-config".into(), role: "deacon".into(), rig: Some("core".into()) });
    e.role = Some("sheriff".into());
    e.rig = Some("edge".into());
    let c = prime_context(&e, &no_cfg(), Some(&p)).unwrap();
    assert_eq!(c.role, "sheriff");
    assert_eq!(c.rig.as_deref(), Some("edge"));
    let c = prime_context(&env(None, Some("1")), &no_cfg(), None).unwrap();
    assert_eq!(c, PrimeContext { workspace: "default".into(), source: "grace-default".into(), role: "unknown".into(), rig: None });
    assert_eq!(prime_context(&env(None, None), &no_cfg(), None), None);
}

#[test]
fn text_report_lines() {
    let c = PrimeContext { workspace: "acme".into(), source: "env".into(), role: "unknown".into(), rig: None };
    assert_eq!(render_text(&c), "# gt — workspace context\n\nWorkspace: acme\nRole:      unknown\n");
    let c = PrimeContext { workspace: "default".into(), source: "grace-default".into(), role: "r".into(), rig: Some("core".into()) };
    assert_eq!(
        render_text(&c),
        "# gt — workspace context\n\nWorkspace: default  (GT_WORKSPACE unset — legacy GT_WORKSPACE_DEFAULT_OPT_IN fallback)\nRole:      r\nRig:       core\n"
    );
    assert_eq!(grace_note("env"), "");
    assert_eq!(grace_note("config-default"), "  (GT_WORKSPACE unset — config default_workspace)");
}

#[test]
fn config_path_prefers_xdg() {
    assert_eq!(config_path(Some("/x"), Some("/h")).as_deref(), Some("/x/gt/config.toml"));
    assert_eq!(config_path(Some(""), Some("/h")).as_deref(), Some("/h/.config/gt/config.toml"));
    assert_eq!(config_path(None, Some("/h/")).as_deref(), Some("/h/.config/gt/config.toml"));
    assert_eq!(config_path(None, Some("")), None);
    assert_eq!(config_path(None, None), None);
}
