use base64::Engine;
use gt::project_config::ProjectConfig;
use gt::session::{
    needs_refresh, needs_refresh_at, refresh_step, refreshed, token_exp, RefreshStep, REFRESH_SKEW_SECS,
};

fn now_secs() -> u64 {
    std::time::SystemTime::now()
        .duration_since(std::time::UNIX_EPOCH)
        .map(|d| d.as_secs())
        .unwrap_or(0)
}

fn jwt_with_exp(exp: u64) -> String {
    let payload = format!("{{\"exp\":{exp}}}");
    let b = base64::engine::general_purpose::URL_SAFE_NO_PAD.encode(payload);
    format!("h.{b}.s")
}

#[test]
fn expired_and_soon_need_refresh() {
    assert!(needs_refresh(&jwt_with_exp(now_secs().saturating_sub(10))));
    assert!(needs_refresh(&jwt_with_exp(now_secs() + 30))); // within skew
}

#[test]
fn far_future_does_not() {
    assert!(!needs_refresh(&jwt_with_exp(now_secs() + 3600)));
}

#[test]
fn unreadable_needs_refresh() {
    assert!(needs_refresh("garbage"));
    assert!(needs_refresh(""));
}

#[test]
fn exp_is_read_from_the_payload() {
    assert_eq!(token_exp(&jwt_with_exp(1_700_000_000)), Some(1_700_000_000));
    assert_eq!(token_exp("h.%%%.s"), None);
    assert_eq!(token_exp("onlyonepart"), None);
    let no_exp = base64::engine::general_purpose::URL_SAFE_NO_PAD.encode("{\"sub\":\"x\"}");
    assert_eq!(token_exp(&format!("h.{no_exp}.s")), None);
    // A token with two parts only still has a payload.
    assert_eq!(
        token_exp(&format!("h.{}", base64::engine::general_purpose::URL_SAFE_NO_PAD.encode("{\"exp\":5}"))),
        Some(5)
    );
}

#[test]
fn refresh_boundary_is_the_skew() {
    let exp = 1_000_000;
    let t = jwt_with_exp(exp);
    assert!(needs_refresh_at(&t, exp - REFRESH_SKEW_SECS));
    assert!(!needs_refresh_at(&t, exp - REFRESH_SKEW_SECS - 1));
    assert!(needs_refresh_at(&jwt_with_exp(u64::MAX), u64::MAX - 5));
    // later times keep needing a refresh
    assert!(needs_refresh_at(&t, exp + 10));
}

#[test]
fn refreshed_replaces_only_the_tokens() {
    let cfg = ProjectConfig {
        server_url: "https://h".into(),
        workspace: "acme".into(),
        rig: "core".into(),
        role: Some("sheriff".into()),
        access_token: "old-a".into(),
        refresh_token: "old-r".into(),
    };
    let fresh = refreshed(cfg.clone(), "new-a".into(), "new-r".into());
    assert_eq!(fresh.access_token, "new-a");
    assert_eq!(fresh.refresh_token, "new-r");
    assert_eq!(fresh.workspace, cfg.workspace);
    assert_eq!(fresh.role, cfg.role);
    assert_eq!(fresh.server_url, cfg.server_url);
}

fn store_with_active(url: &str) -> gt::project_config::ConfigStore {
    let mut s = gt::project_config::ConfigStore::at("/repo".into());
    s.load(
        "acme",
        Some(ProjectConfig {
            server_url: url.into(),
            workspace: "acme".into(),
            rig: "core".into(),
            role: None,
            access_token: "a".into(),
            refresh_token: "r".into(),
        }),
    );
    s.load_pointer(gt::project_config::ActivePointer::Named("acme".into()));
    s
}

#[test]
fn load_active_normalizes_the_server() {
    let s = store_with_active("https://h/mcp/");
    let (name, cfg) = gt::session::load_active(&s).unwrap();
    assert_eq!(name, "acme");
    assert_eq!(cfg.server_url, "https://h");
    assert_eq!(cfg.access_token, "a");
    let empty = gt::project_config::ConfigStore::at("/repo".into());
    assert_eq!(
        gt::session::load_active(&empty),
        Err(gt::project_config::ActiveError::NoActive)
    );
}

#[test]
fn refreshed_tokens_are_saved_and_active() {
    let mut s = store_with_active("https://h");
    let (name, cfg) = gt::session::load_active(&s).unwrap();
    let fresh = gt::session::save_refreshed(&mut s, &name, cfg, "a2".into(), "r2".into());
    assert_eq!(fresh.access_token, "a2");
    assert_eq!(s.active().unwrap(), Some(fresh));
}

#[test]
fn stale_tokens_are_refreshed_fresh_ones_used() {
    let mut cfg = ProjectConfig {
        server_url: "https://h".into(),
        workspace: "acme".into(),
        rig: "core".into(),
        role: None,
        access_token: jwt_with_exp(1_000_000),
        refresh_token: "r".into(),
    };
    assert_eq!(refresh_step(cfg.clone(), 0), RefreshStep::UseAsIs(cfg.clone()));
    assert_eq!(
        refresh_step(cfg.clone(), 1_000_000 - REFRESH_SKEW_SECS),
        RefreshStep::Refresh { server_url: "https://h".into(), refresh_token: "r".into() }
    );
    cfg.access_token = "garbage".into();
    assert!(matches!(refresh_step(cfg, 0), RefreshStep::Refresh { .. }));
}
