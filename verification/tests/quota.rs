use gt::quota::{agent_bin, credentials_dir, onboard_account, onboard_identity, register_call, QuotaError};

#[test]
fn agent_binary_override() {
    assert_eq!(agent_bin(None, "agent"), "agent");
    assert_eq!(agent_bin(Some("   "), "agent"), "agent");
    assert_eq!(agent_bin(Some("/opt/agent"), "agent"), "/opt/agent");
    // kept as given, surrounding spaces included
    assert_eq!(agent_bin(Some(" /opt/agent "), "agent"), " /opt/agent ");
}

#[test]
fn credentials_dir_is_given_or_fresh_under_home() {
    assert_eq!(credentials_dir(Some("  /data/acct  "), None, ".agent-accounts", 5), Ok("/data/acct".into()));
    assert_eq!(
        credentials_dir(Some(" "), Some("/home/u"), ".agent-accounts", 1700000000),
        Ok("/home/u/.agent-accounts/1700000000".into())
    );
    assert_eq!(credentials_dir(None, Some("/home/u"), ".agent-accounts", 0), Ok("/home/u/.agent-accounts/0".into()));
    assert_eq!(credentials_dir(None, None, ".agent-accounts", 0), Err(QuotaError::HomeUnset));
}

#[test]
fn account_comes_from_the_handshake() {
    assert_eq!(onboard_account(Some(true), Some("a@b.c"), None), Ok("a@b.c".into()));
    assert_eq!(onboard_account(Some(true), Some("a@b.c"), Some(" org-1 ")), Ok("org-1".into()));
    assert_eq!(onboard_account(Some(true), Some("a@b.c"), Some("  ")), Ok("a@b.c".into()));
    assert_eq!(onboard_account(Some(true), Some(""), None), Err(QuotaError::NoEmail));
    assert_eq!(onboard_account(Some(true), None, None), Err(QuotaError::NoEmail));
    assert_eq!(onboard_account(Some(false), Some("a@b.c"), Some("x")), Err(QuotaError::NotLoggedIn));
    assert_eq!(onboard_account(None, Some("a@b.c"), None), Err(QuotaError::NotLoggedIn));
}

#[test]
fn identity_is_read_from_the_status_json() {
    let ok = r#"  {"loggedIn": true, "email": "a@b.c", "orgId": "o"}
"#;
    assert_eq!(onboard_identity(ok, None), Ok("a@b.c".into()));
    assert_eq!(onboard_identity(ok, Some(" org-1 ")), Ok("org-1".into()));
    assert_eq!(onboard_identity(r#"{"loggedIn": false, "email": "a@b.c"}"#, None), Err(QuotaError::NotLoggedIn));
    assert_eq!(onboard_identity(r#"{"loggedIn": "yes", "email": "a@b.c"}"#, None), Err(QuotaError::NotLoggedIn));
    assert_eq!(onboard_identity(r#"{"loggedIn": true}"#, None), Err(QuotaError::NoEmail));
    assert_eq!(onboard_identity(r#"{"loggedIn": true, "email": ""}"#, None), Err(QuotaError::NoEmail));
    assert_eq!(onboard_identity(r#"{"loggedIn": true, "email": 7}"#, None), Err(QuotaError::NoEmail));
    assert_eq!(onboard_identity("[true]", None), Err(QuotaError::NotLoggedIn));
    assert_eq!(onboard_identity("not json", Some("x")), Err(QuotaError::BadStatus));
}

#[test]
fn registration_call_carries_account_and_dir() {
    let c = register_call("a@b.c", "/home/u/.agent-accounts/5");
    assert_eq!(c.tool, "quota.register.execute");
    assert_eq!(c.arg("account").as_deref(), Some("a@b.c"));
    assert_eq!(c.arg("config_dir").as_deref(), Some("/home/u/.agent-accounts/5"));
    assert_eq!(c.args.len(), 2);
}
