//! `gt quota onboard` — the decisions of host-side agent-account onboarding.
//!
//! The flow allocates a credentials directory, runs the agent CLI's `auth login` into it, reads
//! the account identity from its `auth status --json`, and registers the account over MCP. The
//! caller runs the processes and the MCP call; this module picks the agent binary, the
//! credentials directory and the account id.

use vstd::prelude::*;

use crate::project_config::{path_join, path_join_chars};
use crate::json::{as_bool, as_str, get_member, json_bool, json_doc, json_member, json_str, json_valid, parse_json};
use crate::text::{chars_of, decimal, decimal_chars, string_from_chars, trim, trim_chars};
use crate::workspace_cmd::{call_view, ToolCall};

verus! {

/// Why onboarding stopped.
#[derive(Debug, Clone, PartialEq, Eq)]
pub enum QuotaError {
    /// No `--dir` and `HOME` is unset.
    HomeUnset,
    /// `auth status` does not report `loggedIn: true`.
    NotLoggedIn,
    /// No `--account` and the status carries no (non-empty) `email`.
    NoEmail,
    /// The `auth status --json` output is not JSON.
    BadStatus,
}

/// `s` has more than whitespace.
pub open spec fn not_blank(s: Seq<char>) -> bool {
    trim(s).len() > 0
}

fn trimmed(s: &str) -> (r: String)
    ensures
        r@ == trim(s@),
{
    string_from_chars(trim_chars(&chars_of(s)).as_slice())
}

/// The agent binary: the override from the environment when it has more than whitespace
/// (kept as given), else `fallback`.
pub fn agent_bin(env_value: Option<&str>, fallback: &str) -> (r: String)
    ensures
        env_value matches Some(v) && not_blank(v@) ==> r@ == env_value->0@,
        !(env_value matches Some(v) && not_blank(v@)) ==> r@ == fallback@,
{
    if let Some(v) = env_value {
        if trim_chars(&chars_of(v)).len() > 0 {
            return v.to_owned();
        }
    }
    fallback.to_owned()
}

/// The credentials directory: `--dir` (trimmed) when it has more than whitespace, else a
/// fresh `$HOME/<accounts>/<now>` (the directory is storage, not the account id).
pub fn credentials_dir(dir: Option<&str>, home: Option<&str>, accounts: &str, now: u64) -> (r: Result<
    String,
    QuotaError,
>)
    ensures
        dir matches Some(d) && not_blank(d@) ==> (r matches Ok(p) && p@ == trim(dir->0@)),
        !(dir matches Some(d) && not_blank(d@)) && home is None ==> r == Err::<String, QuotaError>(
            QuotaError::HomeUnset,
        ),
        !(dir matches Some(d) && not_blank(d@)) && home is Some ==> (r matches Ok(p) && p@
            == path_join(path_join(home->0@, accounts@), decimal(now as nat))),
{
    if let Some(d) = dir {
        if trim_chars(&chars_of(d)).len() > 0 {
            return Ok(trimmed(d));
        }
    }
    match home {
        None => Err(QuotaError::HomeUnset),
        Some(h) => {
            let base = path_join_chars(&chars_of(h), &chars_of(accounts));
            Ok(string_from_chars(path_join_chars(&base, &decimal_chars(now)).as_slice()))
        },
    }
}

/// The account id [`onboard_account`] picks from the login state, the reported email and the
/// override.
pub open spec fn spec_onboard_account(
    logged_in: Option<bool>,
    email: Option<Seq<char>>,
    account_override: Option<Seq<char>>,
) -> Result<Seq<char>, QuotaError> {
    if logged_in != Some(true) {
        Err(QuotaError::NotLoggedIn)
    } else if account_override matches Some(a) && not_blank(a) {
        Ok(trim(account_override->0))
    } else if email matches Some(e) && e.len() > 0 {
        Ok(email->0)
    } else {
        Err(QuotaError::NoEmail)
    }
}

/// The view of an optional string.
pub open spec fn opt_str(o: Option<&str>) -> Option<Seq<char>> {
    match o {
        Some(s) => Some(s@),
        None => None,
    }
}

/// `r` reports the account choice `c`.
pub open spec fn reports_account(r: Result<String, QuotaError>, c: Result<Seq<char>, QuotaError>) -> bool {
    match c {
        Ok(id) => r matches Ok(x) && x@ == id,
        Err(e) => r == Err::<String, QuotaError>(e),
    }
}

/// The account id to register: the login must have completed; `--account` (trimmed) wins when
/// it has more than whitespace, else the `email` the handshake reported.
pub fn onboard_account(
    logged_in: Option<bool>,
    email: Option<&str>,
    account_override: Option<&str>,
) -> (r: Result<String, QuotaError>)
    ensures
        logged_in != Some(true) ==> r == Err::<String, QuotaError>(QuotaError::NotLoggedIn),
        logged_in == Some(true) && (account_override matches Some(a) && not_blank(a@)) ==> (r matches Ok(
            id,
        ) && id@ == trim(account_override->0@)),
        logged_in == Some(true) && !(account_override matches Some(a) && not_blank(a@)) && (
        email matches Some(e) && e@.len() > 0) ==> (r matches Ok(id) && id@ == email->0@),
        logged_in == Some(true) && !(account_override matches Some(a) && not_blank(a@)) && !(
        email matches Some(e) && e@.len() > 0) ==> r == Err::<String, QuotaError>(
            QuotaError::NoEmail,
        ),
        reports_account(r, spec_onboard_account(logged_in, opt_str(email), opt_str(account_override))),
{
    match logged_in {
        Some(true) => {},
        _ => {
            return Err(QuotaError::NotLoggedIn);
        },
    }
    if let Some(a) = account_override {
        if trim_chars(&chars_of(a)).len() > 0 {
            return Ok(trimmed(a));
        }
    }
    match email {
        Some(e) => {
            if e.is_empty() {
                Err(QuotaError::NoEmail)
            } else {
                Ok(e.to_owned())
            }
        },
        None => Err(QuotaError::NoEmail),
    }
}


/// What `auth status --json` reports under the boolean member `key`.
pub open spec fn status_bool(text: Seq<char>, key: Seq<char>) -> Option<bool> {
    match json_member(json_doc(text), key) {
        Some(m) => json_bool(m),
        None => None,
    }
}

/// What `auth status --json` reports under the string member `key`.
pub open spec fn status_str(text: Seq<char>, key: Seq<char>) -> Option<Seq<char>> {
    match json_member(json_doc(text), key) {
        Some(m) => json_str(m),
        None => None,
    }
}

/// The account id from the `auth status --json` output (trimmed, then parsed as JSON): its
/// `loggedIn` must be `true`; `--account` wins when it has more than whitespace, else its
/// `email`. Output that is not JSON is an error of its own.
pub fn onboard_identity(status_raw: &str, account_override: Option<&str>) -> (r: Result<
    String,
    QuotaError,
>)
    ensures
        !json_valid(trim(status_raw@)) ==> r == Err::<String, QuotaError>(QuotaError::BadStatus),
        json_valid(trim(status_raw@)) ==> reports_account(
            r,
            spec_onboard_account(
                status_bool(trim(status_raw@), "loggedIn"@),
                status_str(trim(status_raw@), "email"@),
                opt_str(account_override),
            ),
        ),
{
    let text = string_from_chars(trim_chars(&chars_of(status_raw)).as_slice());
    let doc = match parse_json(text.as_str()) {
        Ok(d) => d,
        Err(_) => {
            return Err(QuotaError::BadStatus);
        },
    };
    let logged_in = match get_member(&doc, "loggedIn") {
        Some(m) => as_bool(m),
        None => None,
    };
    let email = match get_member(&doc, "email") {
        Some(m) => as_str(m),
        None => None,
    };
    onboard_account(logged_in, email, account_override)
}

/// The MCP call that registers the account: `quota.register.execute` with the account id and
/// the credentials directory.
pub fn register_call(account: &str, dir: &str) -> (r: ToolCall)
    ensures
        call_view(r) == ("quota.register.execute"@, seq![("account"@, account@), ("config_dir"@, dir@)]),
{
    let mut args: Vec<(String, String)> = Vec::new();
    args.push(("account".to_owned(), account.to_owned()));
    args.push(("config_dir".to_owned(), dir.to_owned()));
    let r = ToolCall { tool: "quota.register.execute", args };
    assert(r.args@.map_values(|p: (String, String)| (p.0@, p.1@)) =~= seq![
        ("account"@, account@),
        ("config_dir"@, dir@),
    ]);
    r
}

} // verus!
