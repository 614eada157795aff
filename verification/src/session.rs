//! Pre-flight token refresh for the per-project MCP connection.
//!
//! Access tokens are short-lived JWTs, so a config saved minutes ago is often already expired.
//! Before connecting, the access token's `exp` claim is read (no signature check — only to
//! decide) and, if it is expired or within [`REFRESH_SKEW_SECS`] of expiring, the refresh token
//! is exchanged for a fresh pair which is saved back to `.gt-config`.

use vstd::prelude::*;

use crate::json::{as_u64, get_member, json_doc_bytes, json_member, json_u64, json_valid_bytes, parse_json_bytes};
use crate::project_config::{
    active_lookup, normalize_server_url, saved, spec_normalize_server_url, ActiveError,
    ActiveLookup, ConfigStore, Lookup, ProjectConfig, StoreError,
};
use crate::text::{chars_of, second_piece, second_piece_bounds, string_from_chars, subvec};

verus! {

/// Refresh when the access token expires within this window (or is already expired /
/// unreadable).
pub const REFRESH_SKEW_SECS: u64 = 120;

/// What base64 (URL-safe alphabet, no padding) decoding of `s` yields; `None` when `s` is not
/// valid in that encoding.
pub uninterp spec fn base64_url_no_pad(s: Seq<char>) -> Option<Seq<u8>>;

/// `base64::engine::general_purpose::URL_SAFE_NO_PAD.decode(s).ok()`. Stated: the result is
/// determined by `s`. Not stated: the decoding itself.
#[verifier::external_body]
fn decode_base64_url(s: &str) -> (r: Option<Vec<u8>>)
    ensures
        match r {
            Some(v) => base64_url_no_pad(s@) == Some(v@),
            None => base64_url_no_pad(s@) is None,
        },
{
    base64::Engine::decode(&base64::engine::general_purpose::URL_SAFE_NO_PAD, s).ok()
}

/// The `exp` member of the JSON document `bytes` as a `u64`; `None` when `bytes` is not JSON,
/// not an object, lacks `exp`, or the member is not a `u64`.
pub open spec fn json_exp(bytes: Seq<u8>) -> Option<u64> {
    if !json_valid_bytes(bytes) {
        None
    } else {
        match json_member(json_doc_bytes(bytes), "exp"@) {
            Some(m) => json_u64(m),
            None => None,
        }
    }
}

/// The `exp` claim of a JWT: its payload (the second `.`-separated part) base64url-decoded and
/// read as JSON; `None` when any step fails.
pub open spec fn spec_token_exp(jwt: Seq<char>) -> Option<u64> {
    match second_piece(jwt, '.') {
        None => None,
        Some(p) => match base64_url_no_pad(p) {
            None => None,
            Some(b) => json_exp(b),
        },
    }
}

/// Read the `exp` (epoch seconds) from a JWT's payload WITHOUT verifying the signature — only a
/// heuristic to decide whether to refresh, never an auth decision.
pub fn token_exp(jwt: &str) -> (r: Option<u64>)
    ensures
        r == spec_token_exp(jwt@),
        second_piece(jwt@, '.') is None ==> r is None,
        second_piece(jwt@, '.') is Some && base64_url_no_pad(second_piece(jwt@, '.')->0) is None
            ==> r is None,
        second_piece(jwt@, '.') is Some && base64_url_no_pad(second_piece(jwt@, '.')->0) is Some
            && json_valid_bytes(base64_url_no_pad(second_piece(jwt@, '.')->0)->0) ==> r == match json_member(
            json_doc_bytes(base64_url_no_pad(second_piece(jwt@, '.')->0)->0),
            "exp"@,
        ) {
            Some(m) => json_u64(m),
            None => None,
        },
{
    let v = chars_of(jwt);
    let (lo, hi) = match second_piece_bounds(&v, '.') {
        Some(b) => b,
        None => return None,
    };
    let payload = string_from_chars(subvec(&v, lo, hi).as_slice());
    let bytes = match decode_base64_url(payload.as_str()) {
        Some(b) => b,
        None => return None,
    };
    let doc = match parse_json_bytes(bytes.as_slice()) {
        Ok(d) => d,
        Err(_) => return None,
    };
    match get_member(&doc, "exp") {
        Some(m) => as_u64(m),
        None => None,
    }
}

/// The expiry read from a JSON payload is its `exp` member, whatever other members (such as
/// `iat`) it has; a payload without `exp` has no expiry.
pub proof fn lemma_json_exp_reads_exp_member(bytes: Seq<u8>)
    requires
        json_valid_bytes(bytes),
    ensures
        json_member(json_doc_bytes(bytes), "exp"@) matches Some(m) ==> json_exp(bytes) == json_u64(m),
        json_member(json_doc_bytes(bytes), "exp"@) is None ==> json_exp(bytes) is None,
{
}

/// For a JWT whose payload decodes to a JSON document with an `exp` member, the token's expiry
/// is that member read as a `u64`, and the refresh decision at `now` compares exactly that
/// value with `now` plus the skew.
pub proof fn lemma_token_exp_is_exp_claim(
    jwt: Seq<char>,
    payload: Seq<u8>,
    exp_member: serde_json::Value,
    now: u64,
)
    requires
        second_piece(jwt, '.') is Some,
        base64_url_no_pad(second_piece(jwt, '.')->0) == Some(payload),
        json_valid_bytes(payload),
        json_member(json_doc_bytes(payload), "exp"@) == Some(exp_member),
    ensures
        spec_token_exp(jwt) == json_u64(exp_member),
        json_u64(exp_member) is Some ==> (spec_needs_refresh_at(jwt, now) <==> skewed(now)
            >= json_u64(exp_member)->0),
        json_u64(exp_member) is None ==> spec_needs_refresh_at(jwt, now),
{
}

/// `now + REFRESH_SKEW_SECS`, saturating at `u64::MAX`.
pub open spec fn skewed(now: u64) -> int {
    if now + REFRESH_SKEW_SECS > u64::MAX {
        u64::MAX as int
    } else {
        now + REFRESH_SKEW_SECS
    }
}

/// At time `now`, the token must be refreshed: its `exp` is unreadable, or it expires within
/// [`REFRESH_SKEW_SECS`].
pub open spec fn spec_needs_refresh_at(jwt: Seq<char>, now: u64) -> bool {
    match spec_token_exp(jwt) {
        Some(exp) => skewed(now) >= exp,
        None => true,
    }
}

/// Whether the JWT is expired, within [`REFRESH_SKEW_SECS`] of expiry at `now`, or its `exp`
/// can't be read (unreadable counts as "refresh" — safer than forwarding a token we can't
/// reason about).
pub fn needs_refresh_at(access_token: &str, now: u64) -> (b: bool)
    ensures
        b == spec_needs_refresh_at(access_token@, now),
        spec_token_exp(access_token@) is None ==> b,
        spec_token_exp(access_token@) is Some ==> (b <==> now + 120 >= spec_token_exp(
            access_token@,
        )->0),
{
    match token_exp(access_token) {
        Some(exp) => now.saturating_add(REFRESH_SKEW_SECS) >= exp,
        None => true,
    }
}

/// A point in time read from the system clock (`std::time::SystemTime`), carried through
/// unread.
#[verifier::external_type_specification]
#[verifier::external_body]
pub struct ExSystemTime(std::time::SystemTime);

/// `SystemTime::now`. Nothing is stated: the value depends on the clock.
#[verifier::external_body]
fn system_now() -> std::time::SystemTime {
    std::time::SystemTime::now()
}

/// `SystemTime::duration_since(UNIX_EPOCH)`, its error (a time before the epoch) as `None`.
/// Nothing is stated: the value depends on the clock.
#[verifier::external_body]
fn since_epoch(t: &std::time::SystemTime) -> Option<std::time::Duration> {
    t.duration_since(std::time::UNIX_EPOCH).ok()
}

/// `Duration::as_secs`: the whole seconds of `d`. Nothing is stated: `Duration` is opaque here.
#[verifier::external_body]
fn whole_secs(d: &std::time::Duration) -> u64 {
    d.as_secs()
}

/// Seconds since the Unix epoch by the system clock (0 if the clock is before the epoch).
pub fn now_secs() -> u64 {
    match since_epoch(&system_now()) {
        Some(d) => whole_secs(&d),
        None => 0,
    }
}

/// [`needs_refresh_at`] at the current time. Whatever the clock reads, an unreadable token
/// needs a refresh.
pub fn needs_refresh(access_token: &str) -> (b: bool)
    ensures
        spec_token_exp(access_token@) is None ==> b,
        exists|now: u64| b == spec_needs_refresh_at(access_token@, now),
{
    let now = now_secs();
    let b = needs_refresh_at(access_token, now);
    assert(b == spec_needs_refresh_at(access_token@, now));
    b
}

/// `cfg` with its token pair replaced by a freshly minted one (everything else kept).
pub fn refreshed(cfg: ProjectConfig, access_token: String, refresh_token: String) -> (r: ProjectConfig)
    ensures
        r == (ProjectConfig { access_token, refresh_token, ..cfg }),
{
    ProjectConfig { access_token, refresh_token, ..cfg }
}

/// A later time never turns "needs refresh" back off: expiry only gets closer.
pub proof fn lemma_needs_refresh_monotone(jwt: Seq<char>, t1: u64, t2: u64)
    requires
        t1 <= t2,
        spec_needs_refresh_at(jwt, t1),
    ensures
        spec_needs_refresh_at(jwt, t2),
{
}


/// Load the active per-project config for an MCP operation: its name and contents with the
/// server URL normalized, or why no project is connected.
pub fn load_active(store: &ConfigStore) -> (r: Result<(String, ProjectConfig), ActiveError>)
    requires
        store.wf(),
    ensures
        match active_lookup(store@) {
            ActiveLookup::Named(n, Lookup::Found(c)) => r matches Ok((s, d)) && s@ == n
                && d.server_url@ == spec_normalize_server_url(c.server_url@) && d.workspace
                == c.workspace && d.rig == c.rig && d.role == c.role && d.access_token
                == c.access_token && d.refresh_token == c.refresh_token,
            ActiveLookup::Unset => r == Err::<(String, ProjectConfig), ActiveError>(
                ActiveError::NoActive,
            ),
            ActiveLookup::PointerUnreadable => r == Err::<(String, ProjectConfig), ActiveError>(
                ActiveError::Store(StoreError::PointerUnreadable),
            ),
            ActiveLookup::Named(n, Lookup::Missing) => r matches Err(
                ActiveError::ActiveMissing(s),
            ) && s@ == n,
            ActiveLookup::Named(n, Lookup::Unreadable) => r matches Err(
                ActiveError::Store(StoreError::Unreadable(s)),
            ) && s@ == n,
        },
{
    match store.active_entry() {
        Err(e) => Err(e),
        Ok((name, c)) => {
            let url = normalize_server_url(c.server_url.as_str());
            Ok((name, ProjectConfig { server_url: url, ..c }))
        },
    }
}

/// Replace `cfg`'s tokens with the freshly minted pair and persist it under `name`, marked
/// active; returns the fresh config.
pub fn save_refreshed(
    store: &mut ConfigStore,
    name: &str,
    cfg: ProjectConfig,
    access_token: String,
    refresh_token: String,
) -> (r: ProjectConfig)
    requires
        old(store).wf(),
    ensures
        final(store).wf(),
        r == (ProjectConfig { access_token, refresh_token, ..cfg }),
        final(store)@ == saved(old(store)@, name@, r, true),
        active_lookup(final(store)@) == ActiveLookup::Named(name@, Lookup::Found(r)),
{
    let fresh = refreshed(cfg, access_token, refresh_token);
    let _ = store.save(name, &fresh, true);
    fresh
}


/// What an MCP operation does with the active config's tokens.
#[derive(Debug, Clone, PartialEq, Eq)]
pub enum RefreshStep {
    /// The access token is good: use the config as it is.
    UseAsIs(ProjectConfig),
    /// Exchange the refresh token at the server for a fresh pair, then [`save_refreshed`].
    Refresh { server_url: String, refresh_token: String },
}

/// The pre-flight decision at time `now`: a config whose access token does not need a refresh
/// is used as it is; otherwise its refresh token is exchanged at its server.
pub fn refresh_step(cfg: ProjectConfig, now: u64) -> (r: RefreshStep)
    ensures
        !spec_needs_refresh_at(cfg.access_token@, now) ==> r == RefreshStep::UseAsIs(cfg),
        spec_needs_refresh_at(cfg.access_token@, now) ==> (r matches RefreshStep::Refresh {
            server_url,
            refresh_token,
        } && server_url == cfg.server_url && refresh_token == cfg.refresh_token),
{
    if needs_refresh_at(cfg.access_token.as_str(), now) {
        RefreshStep::Refresh {
            server_url: cfg.server_url.clone(),
            refresh_token: cfg.refresh_token.clone(),
        }
    } else {
        RefreshStep::UseAsIs(cfg)
    }
}

} // verus!
