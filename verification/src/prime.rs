//! `gt prime` — session bootstrap / context report.
//!
//! Every MCP call is scoped to a workspace, so a shell that drives `gt` must declare which
//! tenant it speaks for. `prime` is the guard: it **requires** a resolved workspace and aborts
//! otherwise, then reports the workspace plus the role/rig the shell carries.
//!
//! ## Resolution order
//!
//! `GT_WORKSPACE` (env) > the project `.gt-config` active config > `default_workspace`
//! (user-global config.toml) > the legacy `GT_WORKSPACE_DEFAULT_OPT_IN` grace fallback to
//! `default` > abort. Empty values count as unset.
//!
//! ## Role / rig
//!
//! `role` and `rig` resolve `GT_ROLE`/`GT_RIG` (env) > the project `.gt-config` > unset
//! (`role` reports `unknown` when unset).

use vstd::prelude::*;

use crate::config::Config;
use crate::project_config::ProjectConfig;
use crate::text::{chars_eq, chars_of, push_str, string_from_chars};

verus! {

/// The environment `prime` reads: `GT_WORKSPACE`, `GT_WORKSPACE_DEFAULT_OPT_IN`, `GT_ROLE` and
/// `GT_RIG` (`None` when unset or not valid unicode).
#[derive(Debug, Clone, Default)]
pub struct PrimeEnv {
    pub workspace: Option<String>,
    pub default_opt_in: Option<String>,
    pub role: Option<String>,
    pub rig: Option<String>,
}

/// Outcome of resolving the workspace.
#[derive(Debug, Clone, PartialEq, Eq)]
pub enum Resolved {
    /// `GT_WORKSPACE` was set: the tenant the shell declared.
    Env(String),
    /// The active per-project `.gt-config` supplied the tenant.
    ProjectConfig(String),
    /// `default_workspace` from config.toml supplied the tenant.
    ConfigDefault(String),
    /// Nothing named a tenant, but `GT_WORKSPACE_DEFAULT_OPT_IN` allowed the legacy fallback.
    GraceDefault,
    /// Nothing named a tenant and no opt-in: abort.
    Missing,
}

/// The view of a [`Resolved`].
pub enum ResolvedView {
    Env(Seq<char>),
    ProjectConfig(Seq<char>),
    ConfigDefault(Seq<char>),
    GraceDefault,
    Missing,
}

impl View for Resolved {
    type V = ResolvedView;

    open spec fn view(&self) -> ResolvedView {
        match self {
            Resolved::Env(s) => ResolvedView::Env(s@),
            Resolved::ProjectConfig(s) => ResolvedView::ProjectConfig(s@),
            Resolved::ConfigDefault(s) => ResolvedView::ConfigDefault(s@),
            Resolved::GraceDefault => ResolvedView::GraceDefault,
            Resolved::Missing => ResolvedView::Missing,
        }
    }
}

/// The value of an optional string when it is set and non-empty.
pub open spec fn nonempty(o: Option<String>) -> Option<Seq<char>> {
    match o {
        Some(s) => if s@.len() > 0 {
            Some(s@)
        } else {
            None
        },
        None => None,
    }
}

/// ASCII lowercase of one character.
pub open spec fn ascii_lower(c: char) -> char {
    if 'A' <= c <= 'Z' {
        ((c as u32) + 32) as char
    } else {
        c
    }
}

/// ASCII lowercase of a text.
pub open spec fn ascii_lower_seq(s: Seq<char>) -> Seq<char> {
    s.map_values(|c: char| ascii_lower(c))
}

/// The legacy fallback is opted into: any non-empty value except `0`/`false`/`no` (ASCII case
/// insensitive).
pub open spec fn spec_opt_in_enabled(v: Option<String>) -> bool {
    match nonempty(v) {
        Some(s) => {
            let l = ascii_lower_seq(s);
            l != seq!['0'] && l != seq!['f', 'a', 'l', 's', 'e'] && l != seq!['n', 'o']
        },
        None => false,
    }
}

/// The workspace resolution, in precedence order.
pub open spec fn spec_resolve_workspace(
    env: PrimeEnv,
    default_workspace: Option<String>,
    proj: Option<ProjectConfig>,
) -> ResolvedView {
    if nonempty(env.workspace) is Some {
        ResolvedView::Env(nonempty(env.workspace)->0)
    } else if proj is Some && proj->0.workspace@.len() > 0 {
        ResolvedView::ProjectConfig(proj->0.workspace@)
    } else if nonempty(default_workspace) is Some {
        ResolvedView::ConfigDefault(nonempty(default_workspace)->0)
    } else if spec_opt_in_enabled(env.default_opt_in) {
        ResolvedView::GraceDefault
    } else {
        ResolvedView::Missing
    }
}

/// The value of `o` when it is set and non-empty.
pub fn non_empty(o: &Option<String>) -> (r: Option<String>)
    ensures
        match nonempty(*o) {
            Some(s) => r matches Some(x) && x@ == s,
            None => r is None,
        },
{
    match o {
        Some(s) => if s.as_str().is_empty() {
            None
        } else {
            Some(s.clone())
        },
        None => None,
    }
}

fn ascii_lower_char(c: char) -> (r: char)
    ensures
        r == ascii_lower(c),
{
    if 'A' <= c && c <= 'Z' {
        ((c as u8) + 32) as char
    } else {
        c
    }
}

/// Whether the legacy `default`-workspace fallback is opted into. Any non-empty value enables
/// it except the explicit negatives `0`/`false`/`no` (so `=1`, `=true`, or a bare presence all
/// work, while `=0` keeps the abort).
pub fn opt_in_enabled(v: &Option<String>) -> (b: bool)
    ensures
        b == spec_opt_in_enabled(*v),
        v is None ==> !b,
        v is Some && v->0@.len() == 0 ==> !b,
{
    match non_empty(v) {
        None => false,
        Some(s) => {
            let c = chars_of(s.as_str());
            let mut l: Vec<char> = Vec::new();
            let mut i: usize = 0;
            while i < c.len()
                invariant
                    i <= c.len(),
                    l@ == ascii_lower_seq(c@.subrange(0, i as int)),
                decreases c.len() - i,
            {
                l.push(ascii_lower_char(c[i]));
                proof {
                    assert(ascii_lower_seq(c@.subrange(0, i + 1)) =~= ascii_lower_seq(
                        c@.subrange(0, i as int),
                    ).push(ascii_lower(c@[i as int])));
                }
                i = i + 1;
            }
            assert(c@.subrange(0, c@.len() as int) == c@);
            let zero = chars_of("0");
            let fals = chars_of("false");
            let no = chars_of("no");
            proof {
                reveal_strlit("0");
                reveal_strlit("false");
                reveal_strlit("no");
                assert(zero@ =~= seq!['0']);
                assert(fals@ =~= seq!['f', 'a', 'l', 's', 'e']);
                assert(no@ =~= seq!['n', 'o']);
            }
            !chars_eq(&l, &zero) && !chars_eq(&l, &fals) && !chars_eq(&l, &no)
        },
    }
}

/// Resolve the active workspace. Empty strings are treated as unset (an exported-but-empty
/// `GT_WORKSPACE=` is a misconfiguration, not a tenant named "").
///
/// Precedence: env `GT_WORKSPACE` > the project `.gt-config` active config > user-global
/// `default_workspace` > grace `default` opt-in > abort.
pub fn resolve_workspace(env: &PrimeEnv, cfg: &Config, proj: Option<&ProjectConfig>) -> (r:
    Resolved)
    ensures
        r@ == spec_resolve_workspace(
            *env,
            cfg.default_workspace,
            match proj {
                Some(p) => Some(*p),
                None => None,
            },
        ),
        env.workspace is Some && env.workspace->0@.len() > 0 ==> r@ == ResolvedView::Env(
            env.workspace->0@,
        ),
        nonempty(env.workspace) is None && proj is Some && proj->0.workspace@.len() > 0 ==> r@
            == ResolvedView::ProjectConfig(proj->0.workspace@),
        nonempty(env.workspace) is None && !(proj is Some && proj->0.workspace@.len() > 0)
            && cfg.default_workspace is Some && cfg.default_workspace->0@.len() > 0 ==> r@
            == ResolvedView::ConfigDefault(cfg.default_workspace->0@),
        nonempty(env.workspace) is None && !(proj is Some && proj->0.workspace@.len() > 0)
            && nonempty(cfg.default_workspace) is None ==> (r@ == ResolvedView::GraceDefault
            <==> spec_opt_in_enabled(env.default_opt_in)),
{
    if let Some(ws) = non_empty(&env.workspace) {
        return Resolved::Env(ws);
    }
    if let Some(p) = proj {
        if !p.workspace.as_str().is_empty() {
            return Resolved::ProjectConfig(p.workspace.clone());
        }
    }
    if let Some(ws) = non_empty(&cfg.default_workspace) {
        return Resolved::ConfigDefault(ws);
    }
    if opt_in_enabled(&env.default_opt_in) {
        return Resolved::GraceDefault;
    }
    Resolved::Missing
}

/// The context `gt prime` reports.
#[derive(Debug, Clone, PartialEq, Eq)]
pub struct PrimeContext {
    /// The resolved workspace.
    pub workspace: String,
    /// Where it came from: `env`, `gt-config`, `config-default` or `grace-default`.
    pub source: String,
    /// `GT_ROLE` > project config role > `unknown`.
    pub role: String,
    /// `GT_RIG` > project config rig > unset.
    pub rig: Option<String>,
}

/// The role `prime` reports: `GT_ROLE` > the project config's role > `unknown` (empty values
/// count as unset).
pub open spec fn spec_role(env: PrimeEnv, proj: Option<ProjectConfig>) -> Seq<char> {
    if nonempty(env.role) is Some {
        nonempty(env.role)->0
    } else if proj is Some && nonempty(proj->0.role) is Some {
        nonempty(proj->0.role)->0
    } else {
        "unknown"@
    }
}

/// The rig `prime` reports: `GT_RIG` > the project config's rig > unset.
pub open spec fn spec_rig(env: PrimeEnv, proj: Option<ProjectConfig>) -> Option<Seq<char>> {
    if nonempty(env.rig) is Some {
        nonempty(env.rig)
    } else if proj is Some && proj->0.rig@.len() > 0 {
        Some(proj->0.rig@)
    } else {
        None
    }
}

/// The view of an optional project config reference.
pub open spec fn proj_view(proj: Option<&ProjectConfig>) -> Option<ProjectConfig> {
    match proj {
        Some(p) => Some(*p),
        None => None,
    }
}

/// Resolve the whole context `gt prime` reports; `None` when no workspace resolves (abort).
pub fn prime_context(env: &PrimeEnv, cfg: &Config, proj: Option<&ProjectConfig>) -> (r: Option<
    PrimeContext,
>)
    ensures
        match spec_resolve_workspace(*env, cfg.default_workspace, proj_view(proj)) {
            ResolvedView::Missing => r is None,
            ResolvedView::Env(w) => r matches Some(c) && c.workspace@ == w && c.source@ == "env"@,
            ResolvedView::ProjectConfig(w) => r matches Some(c) && c.workspace@ == w && c.source@
                == "gt-config"@,
            ResolvedView::ConfigDefault(w) => r matches Some(c) && c.workspace@ == w && c.source@
                == "config-default"@,
            ResolvedView::GraceDefault => r matches Some(c) && c.workspace@ == "default"@
                && c.source@ == "grace-default"@,
        },
        r is Some && env.role is Some && env.role->0@.len() > 0 ==> r->0.role@ == env.role->0@,
        r is Some && nonempty(env.role) is None && proj is Some && proj->0.role is Some
            && proj->0.role->0@.len() > 0 ==> r->0.role@ == proj->0.role->0@,
        r is Some && nonempty(env.role) is None && !(proj is Some && proj->0.role is Some
            && proj->0.role->0@.len() > 0) ==> r->0.role@ == "unknown"@,
        r is Some && env.rig is Some && env.rig->0@.len() > 0 ==> r->0.rig is Some
            && r->0.rig->0@ == env.rig->0@,
        r is Some && nonempty(env.rig) is None && proj is Some && proj->0.rig@.len() > 0
            ==> r->0.rig is Some && r->0.rig->0@ == proj->0.rig@,
        r is Some && nonempty(env.rig) is None && !(proj is Some && proj->0.rig@.len() > 0)
            ==> r->0.rig is None,
        r matches Some(c) ==> c.role@ == spec_role(*env, proj_view(proj)) && match spec_rig(
            *env,
            proj_view(proj),
        ) {
            Some(g) => c.rig matches Some(x) && x@ == g,
            None => c.rig is None,
        },
{
    let (workspace, source) = match resolve_workspace(env, cfg, proj) {
        Resolved::Env(ws) => (ws, "env".to_owned()),
        Resolved::ProjectConfig(ws) => (ws, "gt-config".to_owned()),
        Resolved::ConfigDefault(ws) => (ws, "config-default".to_owned()),
        Resolved::GraceDefault => ("default".to_owned(), "grace-default".to_owned()),
        Resolved::Missing => {
            return None;
        },
    };
    let role = match non_empty(&env.role) {
        Some(r) => r,
        None => match proj {
            Some(p) => match non_empty(&p.role) {
                Some(r) => r,
                None => "unknown".to_owned(),
            },
            None => "unknown".to_owned(),
        },
    };
    let rig = match non_empty(&env.rig) {
        Some(r) => Some(r),
        None => match proj {
            Some(p) => if p.rig.as_str().is_empty() {
                None
            } else {
                Some(p.rig.clone())
            },
            None => None,
        },
    };
    Some(PrimeContext { workspace, source, role, rig })
}

/// The note shown after a non-env workspace in text mode, explaining where it came from.
pub open spec fn spec_grace_note(source: Seq<char>) -> Seq<char> {
    if source == "gt-config"@ {
        "  (GT_WORKSPACE unset — project .gt-config)"@
    } else if source == "config-default"@ {
        "  (GT_WORKSPACE unset — config default_workspace)"@
    } else if source == "grace-default"@ {
        "  (GT_WORKSPACE unset — legacy GT_WORKSPACE_DEFAULT_OPT_IN fallback)"@
    } else {
        ""@
    }
}

/// The trailing note shown after a non-env workspace in text mode.
pub fn grace_note(source: &str) -> (r: &'static str)
    ensures
        r@ == spec_grace_note(source@),
{
    let s = chars_of(source);
    if chars_eq(&s, &chars_of("gt-config")) {
        "  (GT_WORKSPACE unset — project .gt-config)"
    } else if chars_eq(&s, &chars_of("config-default")) {
        "  (GT_WORKSPACE unset — config default_workspace)"
    } else if chars_eq(&s, &chars_of("grace-default")) {
        "  (GT_WORKSPACE unset — legacy GT_WORKSPACE_DEFAULT_OPT_IN fallback)"
    } else {
        ""
    }
}

/// The text report (what `gt prime` prints without `--json`): a heading, a blank line, the
/// workspace with its [`grace_note`], the role, and the rig when there is one.
pub fn render_text(ctx: &PrimeContext) -> (r: String)
    ensures
        r@ == "# gt — workspace context\n\nWorkspace: "@ + ctx.workspace@ + spec_grace_note(
            ctx.source@,
        ) + "\nRole:      "@ + ctx.role@ + "\n"@ + match ctx.rig {
            Some(g) => "Rig:       "@ + g@ + "\n"@,
            None => Seq::<char>::empty(),
        },
{
    let mut v: Vec<char> = Vec::new();
    push_str(&mut v, "# gt — workspace context\n\nWorkspace: ");
    push_str(&mut v, ctx.workspace.as_str());
    push_str(&mut v, grace_note(ctx.source.as_str()));
    push_str(&mut v, "\nRole:      ");
    push_str(&mut v, ctx.role.as_str());
    push_str(&mut v, "\n");
    let ghost before = v@;
    if let Some(g) = &ctx.rig {
        push_str(&mut v, "Rig:       ");
        push_str(&mut v, g.as_str());
        push_str(&mut v, "\n");
        assert(v@ =~= before + ("Rig:       "@ + g@ + "\n"@));
    } else {
        assert(v@ =~= before + Seq::<char>::empty());
    }
    string_from_chars(v.as_slice())
}

/// An explicit `GT_WORKSPACE` always wins, whatever else is configured.
pub proof fn lemma_env_workspace_wins(
    env: PrimeEnv,
    default_workspace: Option<String>,
    proj: Option<ProjectConfig>,
)
    requires
        nonempty(env.workspace) is Some,
    ensures
        spec_resolve_workspace(env, default_workspace, proj) == ResolvedView::Env(
            nonempty(env.workspace)->0,
        ),
{
}

/// Without any workspace source and without the opt-in, resolution aborts; a configured source
/// never aborts.
pub proof fn lemma_missing_iff_nothing_configured(
    env: PrimeEnv,
    default_workspace: Option<String>,
    proj: Option<ProjectConfig>,
)
    ensures
        (spec_resolve_workspace(env, default_workspace, proj) == ResolvedView::Missing) <==> (
        nonempty(env.workspace) is None && !(proj is Some && proj->0.workspace@.len() > 0)
            && nonempty(default_workspace) is None && !spec_opt_in_enabled(env.default_opt_in)),
{
}

/// With `GT_WORKSPACE` unset or empty, an active project config that names a workspace supplies
/// it, whatever `default_workspace` and the opt-in say.
pub proof fn lemma_project_workspace_before_defaults(
    env: PrimeEnv,
    default_workspace: Option<String>,
    proj: Option<ProjectConfig>,
)
    requires
        nonempty(env.workspace) is None,
        proj is Some,
        proj->0.workspace@.len() > 0,
    ensures
        spec_resolve_workspace(env, default_workspace, proj) == ResolvedView::ProjectConfig(
            proj->0.workspace@,
        ),
{
}

/// With neither `GT_WORKSPACE` nor a project workspace, a non-empty `default_workspace` supplies
/// the tenant, whatever the opt-in says.
pub proof fn lemma_config_default_before_grace(
    env: PrimeEnv,
    default_workspace: Option<String>,
    proj: Option<ProjectConfig>,
)
    requires
        nonempty(env.workspace) is None,
        !(proj is Some && proj->0.workspace@.len() > 0),
        default_workspace is Some,
        default_workspace->0@.len() > 0,
    ensures
        spec_resolve_workspace(env, default_workspace, proj) == ResolvedView::ConfigDefault(
            default_workspace->0@,
        ),
{
}

/// The grace `default` tenant is chosen exactly when nothing names a tenant and the opt-in is
/// set.
pub proof fn lemma_grace_only_as_last_resort(
    env: PrimeEnv,
    default_workspace: Option<String>,
    proj: Option<ProjectConfig>,
)
    ensures
        (spec_resolve_workspace(env, default_workspace, proj) == ResolvedView::GraceDefault) <==> (
        nonempty(env.workspace) is None && !(proj is Some && proj->0.workspace@.len() > 0)
            && nonempty(default_workspace) is None && spec_opt_in_enabled(env.default_opt_in)),
{
}

/// A set, non-empty `GT_ROLE` is the reported role, with or without a project config.
pub proof fn lemma_env_role_wins(env: PrimeEnv, proj: Option<ProjectConfig>)
    requires
        env.role is Some,
        env.role->0@.len() > 0,
    ensures
        spec_role(env, proj) == env.role->0@,
{
}

/// Without `GT_ROLE`, the project config's non-empty role is reported; with neither, `unknown`.
pub proof fn lemma_role_fallbacks(env: PrimeEnv, proj: Option<ProjectConfig>)
    requires
        nonempty(env.role) is None,
    ensures
        proj is Some && proj->0.role is Some && proj->0.role->0@.len() > 0 ==> spec_role(env, proj)
            == proj->0.role->0@,
        !(proj is Some && proj->0.role is Some && proj->0.role->0@.len() > 0) ==> spec_role(
            env,
            proj,
        ) == "unknown"@,
{
}

/// A set, non-empty `GT_RIG` is the reported rig, with or without a project config.
pub proof fn lemma_env_rig_wins(env: PrimeEnv, proj: Option<ProjectConfig>)
    requires
        env.rig is Some,
        env.rig->0@.len() > 0,
    ensures
        spec_rig(env, proj) == Some(env.rig->0@),
{
}

/// The opt-in is read without regard to ASCII case: two values that agree once lowercased
/// (`FALSE` and `false`, `No` and `no`) enable the fallback alike.
pub proof fn lemma_opt_in_ignores_case(a: String, b: String)
    requires
        ascii_lower_seq(a@) == ascii_lower_seq(b@),
    ensures
        spec_opt_in_enabled(Some(a)) == spec_opt_in_enabled(Some(b)),
{
    assert(ascii_lower_seq(a@).len() == a@.len());
    assert(ascii_lower_seq(b@).len() == b@.len());
}

} // verus!
