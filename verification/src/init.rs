//! `gt init` / `gt login` — the decisions of the first-run MCP-connection wizard.
//!
//! The wizard logs in to a gt-core server (browser OAuth, or a Personal Access Token), lists
//! its workspaces and rigs, lets the user pick one of each, and saves the result as a named
//! config under `.gt-config/` (marked active). Every prompt has a matching flag, so the same
//! command runs unattended in CI: `--yes` turns a still-missing value into an error rather
//! than a prompt.
//!
//! The caller performs the network calls and the prompts; this module decides what each
//! flag, catalog and answer leads to.

use vstd::prelude::*;

use crate::project_config::{normalize_server_url, opt_view, spec_normalize_server_url, ProjectConfig};
use crate::text::{
    chars_eq, chars_of, join, join_strings, position_or_zero, push_str, string_from_chars, views,
};

verus! {

/// The server offered as the prompt's default.
pub const DEFAULT_SERVER: &'static str = "http://127.0.0.1:8765";

/// The separator between the names listed in an "available: …" error.
pub const LIST_SEPARATOR: &'static str = ", ";

/// Parsed `gt init` flags. Any `None` is resolved by prompting, unless `no_interactive`.
#[derive(Debug, Clone, PartialEq, Eq)]
pub struct InitArgs {
    /// Server base URL.
    pub server: Option<String>,
    /// A Personal Access Token used as the access token (headless / CI) instead of the
    /// browser OAuth flow.
    pub token: Option<String>,
    /// Workspace id to target.
    pub workspace: Option<String>,
    /// Rig name or prefix to target.
    pub rig: Option<String>,
    /// Role this shell speaks as (optional context).
    pub role: Option<String>,
    /// Name to save the config under.
    pub name: Option<String>,
    /// Fail instead of prompting for anything still missing (CI / scripts).
    pub no_interactive: bool,
}

impl Default for InitArgs {
    fn default() -> (r: InitArgs)
        ensures
            r.server is None,
            r.token is None,
            r.workspace is None,
            r.rig is None,
            r.role is None,
            r.name is None,
            !r.no_interactive,
    {
        InitArgs {
            server: None,
            token: None,
            workspace: None,
            rig: None,
            role: None,
            name: None,
            no_interactive: false,
        }
    }
}

/// Why the wizard stopped.
#[derive(Debug, Clone, PartialEq, Eq)]
pub enum InitError {
    /// A value is still missing and prompting is off; carries the prompt's label.
    Missing(String),
    /// The server returned no workspaces for this account.
    NoWorkspaces,
    /// `--workspace` is not in the catalog: the value, then the catalog's ids joined by `, `.
    UnknownWorkspace(String, String),
    /// The chosen workspace has no rigs.
    NoRigs(String),
    /// `--rig` names no rig of the workspace: the value, the workspace, then the rig names
    /// joined by `, `.
    UnknownRig(String, String, String),
}

/// The token pair a login yields.
#[derive(Debug, Clone, PartialEq, Eq)]
pub struct Tokens {
    pub access_token: String,
    pub refresh_token: String,
}

impl Tokens {
    /// A Personal Access Token is the access token itself; it has no refresh leg, so the
    /// refresh token is empty.
    pub fn from_pat(token: &str) -> (r: Tokens)
        ensures
            r.access_token@ == token@,
            r.refresh_token@ == Seq::<char>::empty(),
    {
        Tokens { access_token: token.to_owned(), refresh_token: String::new() }
    }
}

/// `s` is one of `items`.
pub open spec fn listed(items: Seq<Seq<char>>, s: Seq<char>) -> bool {
    exists|i: int| 0 <= i < items.len() && items[i] == s
}

/// Whether `x` is one of `items`.
fn is_listed(items: &Vec<String>, x: &str) -> (b: bool)
    ensures
        b == listed(views(items@), x@),
{
    let c = chars_of(x);
    let mut i: usize = 0;
    while i < items.len()
        invariant
            i <= items.len(),
            c@ == x@,
            forall|k: int| 0 <= k < i ==> views(items@)[k] != x@,
        decreases items.len() - i,
    {
        if chars_eq(&chars_of(items[i].as_str()), &c) {
            assert(views(items@)[i as int] == x@);
            return true;
        }
        i = i + 1;
    }
    false
}

/// Choose the workspace: an empty catalog is an error; `--workspace` short-circuits the menu
/// but must name a catalog id (so a typo fails here, not at first use); without the flag the
/// answer is `None` — offer the menu.
pub fn pick_workspace(flag: Option<&str>, ids: &Vec<String>) -> (r: Result<Option<String>, InitError>)
    ensures
        ids.len() == 0 ==> r == Err::<Option<String>, InitError>(InitError::NoWorkspaces),
        ids.len() > 0 && flag is None ==> r == Ok::<Option<String>, InitError>(None),
        ids.len() > 0 && flag is Some && listed(views(ids@), flag->0@) ==> (r matches Ok(Some(w))
            && w@ == flag->0@),
        ids.len() > 0 && flag is Some && !listed(views(ids@), flag->0@) ==> (r matches Err(
            InitError::UnknownWorkspace(w, available),
        ) && w@ == flag->0@ && available@ == join(views(ids@), LIST_SEPARATOR@)),
{
    if ids.len() == 0 {
        return Err(InitError::NoWorkspaces);
    }
    match flag {
        None => Ok(None),
        Some(w) => {
            if is_listed(ids, w) {
                Ok(Some(w.to_owned()))
            } else {
                Err(InitError::UnknownWorkspace(w.to_owned(), join_strings(ids, LIST_SEPARATOR)))
            }
        },
    }
}

/// A workspace's menu label: `"{id}  ({name}, {status})"`.
pub fn workspace_label(id: &str, name: &str, status: &str) -> (r: String)
    ensures
        r@ == id@ + "  ("@ + name@ + ", "@ + status@ + ")"@,
{
    let mut v: Vec<char> = Vec::new();
    push_str(&mut v, id);
    push_str(&mut v, "  (");
    push_str(&mut v, name);
    push_str(&mut v, ", ");
    push_str(&mut v, status);
    push_str(&mut v, ")");
    string_from_chars(v.as_slice())
}

/// One rig of a workspace, as the catalog lists it.
#[derive(Debug, Clone, PartialEq, Eq)]
pub struct RigEntry {
    pub name: String,
    pub prefix: String,
}

/// `--rig` may give a rig's name or its prefix.
pub open spec fn rig_matches(e: RigEntry, r: Seq<char>) -> bool {
    e.name@ == r || e.prefix@ == r
}

/// `rigs[i]` is the first rig that `r` names.
pub open spec fn is_first_rig(rigs: Seq<RigEntry>, r: Seq<char>, i: int) -> bool {
    &&& 0 <= i < rigs.len()
    &&& rig_matches(rigs[i], r)
    &&& forall|j: int| 0 <= j < i ==> !rig_matches(#[trigger] rigs[j], r)
}

/// The names of `rigs`, in order.
pub open spec fn rig_names(rigs: Seq<RigEntry>) -> Seq<Seq<char>> {
    rigs.map_values(|e: RigEntry| e.name@)
}

/// Choose the rig, scoped to `workspace`: a workspace without rigs is an error; `--rig` picks
/// the first rig whose name or prefix it equals and yields that rig's prefix (an unknown rig
/// is an error listing the rig names); without the flag the answer is `None` — offer the menu.
pub fn pick_rig(flag: Option<&str>, rigs: &Vec<RigEntry>, workspace: &str) -> (r: Result<
    Option<String>,
    InitError,
>)
    ensures
        rigs.len() == 0 ==> (r matches Err(InitError::NoRigs(w)) && w@ == workspace@),
        rigs.len() > 0 && flag is None ==> r == Ok::<Option<String>, InitError>(None),
        rigs.len() > 0 && flag is Some ==> ((r matches Ok(Some(_))) <==> exists|i: int|
            is_first_rig(rigs@, flag->0@, i)),
        rigs.len() > 0 && flag is Some ==> forall|i: int|
            is_first_rig(rigs@, flag->0@, i) ==> (r matches Ok(Some(p)) && p@ == rigs@[i].prefix@),
        rigs.len() > 0 && flag is Some && (forall|i: int|
            0 <= i < rigs.len() ==> !rig_matches(#[trigger] rigs@[i], flag->0@)) ==> (r matches Err(
            InitError::UnknownRig(x, w, available),
        ) && x@ == flag->0@ && w@ == workspace@ && available@ == join(
            rig_names(rigs@),
            LIST_SEPARATOR@,
        )),
{
    if rigs.len() == 0 {
        return Err(InitError::NoRigs(workspace.to_owned()));
    }
    let f = match flag {
        None => {
            return Ok(None);
        },
        Some(f) => f,
    };
    let c = chars_of(f);
    let mut names: Vec<String> = Vec::new();
    let mut i: usize = 0;
    while i < rigs.len()
        invariant
            i <= rigs.len(),
            rigs.len() > 0,
            flag == Some(f),
            c@ == f@,
            forall|j: int| 0 <= j < i ==> !rig_matches(#[trigger] rigs@[j], f@),
            names@.len() == i,
            forall|j: int| 0 <= j < i ==> (#[trigger] names@[j])@ == rigs@[j].name@,
        decreases rigs.len() - i,
    {
        let e = &rigs[i];
        if chars_eq(&chars_of(e.name.as_str()), &c) || chars_eq(&chars_of(e.prefix.as_str()), &c) {
            proof {
                assert(is_first_rig(rigs@, f@, i as int));
                assert(flag->0@ == f@);
                assert(exists|k: int| is_first_rig(rigs@, flag->0@, k));
                assert forall|k: int| is_first_rig(rigs@, f@, k) implies k == i by {
                    if k < i {
                        assert(!rig_matches(rigs@[k], f@));
                    } else if k > i {
                        assert(!rig_matches(rigs@[i as int], f@));
                    }
                }
            }
            return Ok(Some(e.prefix.clone()));
        }
        names.push(e.name.clone());
        i = i + 1;
    }
    assert(views(names@) =~= rig_names(rigs@));
    Err(InitError::UnknownRig(f.to_owned(), workspace.to_owned(), join_strings(&names, LIST_SEPARATOR)))
}

/// A rig's menu label: `"{name}  (prefix {prefix})"`.
pub fn rig_label(name: &str, prefix: &str) -> (r: String)
    ensures
        r@ == name@ + "  (prefix "@ + prefix@ + ")"@,
{
    let mut v: Vec<char> = Vec::new();
    push_str(&mut v, name);
    push_str(&mut v, "  (prefix ");
    push_str(&mut v, prefix);
    push_str(&mut v, ")");
    string_from_chars(v.as_slice())
}

/// One workspace of the catalog, as the server lists it.
#[derive(Debug, Clone, PartialEq, Eq)]
pub struct WorkspaceEntry {
    pub id: String,
    pub name: String,
    pub status: String,
}

/// What the wizard waits for next.
#[derive(Debug, Clone, Copy, PartialEq, Eq)]
pub enum Phase {
    /// The server URL typed at the prompt.
    Server,
    /// The token pair from the browser login.
    Login,
    /// The workspace catalog.
    Catalog,
    /// The workspace chosen from the menu.
    WorkspaceMenu,
    /// The chosen workspace's rigs.
    RigList,
    /// The rig chosen from the menu.
    RigMenu,
    /// The config name typed at the prompt.
    Name,
    /// Nothing: the wizard has saved or failed.
    Done,
}

/// What the caller does next for the wizard.
#[derive(Debug, Clone, PartialEq, Eq)]
pub enum InitAction {
    /// Prompt for text under `label`, offering `default`; answer with [`InitEvent::Answer`].
    Prompt { label: String, default: Option<String> },
    /// Offer a menu under `label`; answer with the chosen option as [`InitEvent::Answer`].
    Select { label: String, options: Vec<String> },
    /// Log in through the browser against `server`; answer with [`InitEvent::LoggedIn`].
    BrowserLogin { server: String },
    /// Fetch the workspace catalog; answer with [`InitEvent::Workspaces`].
    ListWorkspaces { server: String, access_token: String },
    /// Fetch the rigs of `workspace`; answer with [`InitEvent::Rigs`].
    ListRigs { server: String, access_token: String, workspace: String },
    /// Save `config` under `name`, marked active; the wizard is done.
    Save { name: String, config: ProjectConfig },
    /// Stop with the error; the wizard is done.
    Fail(InitError),
}

/// What the caller hands back after performing an [`InitAction`].
#[derive(Debug, Clone, PartialEq, Eq)]
pub enum InitEvent {
    /// The text typed at a prompt, or the menu option chosen.
    Answer(String),
    /// The token pair the browser login minted.
    LoggedIn(Tokens),
    /// The workspace catalog.
    Workspaces(Vec<WorkspaceEntry>),
    /// The rigs of the chosen workspace.
    Rigs(Vec<RigEntry>),
}

/// The first-run wizard: the flags, what it waits for, and what it gathered so far.
#[derive(Debug, Clone, PartialEq, Eq)]
pub struct Wizard {
    pub args: InitArgs,
    pub phase: Phase,
    /// The server base URL as given, once known.
    pub server: String,
    /// The token pair, once logged in.
    pub tokens: Tokens,
    /// The chosen workspace id, once known.
    pub workspace: String,
    /// The chosen rig prefix, once known.
    pub rig: String,
    /// The menu on offer, and the value each option stands for (workspace ids or rig prefixes).
    pub options: Vec<String>,
    pub values: Vec<String>,
}

/// `a` prompts for `label` offering `default`.
pub open spec fn prompts(a: InitAction, label: Seq<char>, default: Option<Seq<char>>) -> bool {
    a matches InitAction::Prompt { label: l, default: d } && l@ == label && opt_view(d) == default
}

/// `a` offers the menu `options` under `label`.
pub open spec fn offers(a: InitAction, label: Seq<char>, options: Seq<Seq<char>>) -> bool {
    a matches InitAction::Select { label: l, options: o } && l@ == label && views(o@) == options
}

/// `a` stops because the value under `label` is missing and prompting is off.
pub open spec fn fails_missing(a: InitAction, label: Seq<char>) -> bool {
    a matches InitAction::Fail(InitError::Missing(l)) && l@ == label
}

/// `a` asks the user something.
pub open spec fn is_question(a: InitAction) -> bool {
    a is Prompt || a is Select
}

/// The workspace menu: one label per catalog entry.
pub open spec fn workspace_labels(c: Seq<WorkspaceEntry>) -> Seq<Seq<char>> {
    c.map_values(|w: WorkspaceEntry| w.id@ + "  ("@ + w.name@ + ", "@ + w.status@ + ")"@)
}

/// The rig menu: one label per rig.
pub open spec fn rig_labels(rigs: Seq<RigEntry>) -> Seq<Seq<char>> {
    rigs.map_values(|e: RigEntry| e.name@ + "  (prefix "@ + e.prefix@ + ")"@)
}

/// The ids of a catalog.
pub open spec fn catalog_ids(c: Seq<WorkspaceEntry>) -> Seq<Seq<char>> {
    c.map_values(|w: WorkspaceEntry| w.id@)
}

/// The prefixes of a workspace's rigs.
pub open spec fn rig_prefixes(rigs: Seq<RigEntry>) -> Seq<Seq<char>> {
    rigs.map_values(|e: RigEntry| e.prefix@)
}

/// The config a finished wizard saves.
pub open spec fn saves(a: InitAction, name: Seq<char>, w: Wizard) -> bool {
    a matches InitAction::Save { name: n, config: c } && n@ == name && c.server_url == w.server
        && c.workspace == w.workspace && c.rig == w.rig && c.role == w.args.role
        && c.access_token == w.tokens.access_token && c.refresh_token == w.tokens.refresh_token
}

/// The event `e` is the kind of answer the phase `p` waits for.
pub open spec fn expects(p: Phase, e: InitEvent) -> bool {
    match p {
        Phase::Server | Phase::Name => e is Answer,
        Phase::WorkspaceMenu | Phase::RigMenu => e is Answer,
        Phase::Login => e is LoggedIn,
        Phase::Catalog => e is Workspaces,
        Phase::RigList => e is Rigs,
        Phase::Done => false,
    }
}

/// The wizard's menu is well formed: one value per option, and at least one option.
pub open spec fn menu_ok(w: Wizard) -> bool {
    (w.phase == Phase::WorkspaceMenu || w.phase == Phase::RigMenu) ==> (w.options@.len()
        == w.values@.len() && w.options@.len() > 0)
}

/// The wizard `r` continues `w` once the server is known as `raw`, kept as given (the REST
/// client trims a trailing `/` itself): a Personal Access Token logs in directly, else the
/// browser does, against the normalized base.
pub open spec fn after_server_spec(w: Wizard, raw: Seq<char>, r: (Wizard, InitAction)) -> bool {
    &&& r.0.args == w.args
    &&& r.0.server@ == raw
    &&& w.args.token is None ==> r.0.phase == Phase::Login && (r.1 matches InitAction::BrowserLogin {
        server,
    } && server@ == spec_normalize_server_url(raw))
    &&& w.args.token is Some ==> r.0.phase == Phase::Catalog && r.0.tokens.access_token@
        == w.args.token->0@ && r.0.tokens.refresh_token@.len() == 0 && (r.1 matches InitAction::ListWorkspaces {
        server,
        access_token,
    } && server == r.0.server && access_token == r.0.tokens.access_token)
}

/// The wizard `r` continues `w` once the workspace `ws` is chosen: fetch its rigs.
pub open spec fn after_workspace_spec(w: Wizard, ws: Seq<char>, r: (Wizard, InitAction)) -> bool {
    &&& r.0.args == w.args
    &&& r.0.server == w.server
    &&& r.0.tokens == w.tokens
    &&& r.0.workspace@ == ws
    &&& r.0.phase == Phase::RigList
    &&& r.1 matches InitAction::ListRigs { server, access_token, workspace } && server == w.server
        && access_token == w.tokens.access_token && workspace@ == ws
}

/// The wizard `r` continues `w` once the rig `rig` is chosen: the name flag finishes; without
/// it the user is prompted (the workspace id as the default), unless `--yes`.
pub open spec fn after_rig_spec(w: Wizard, rig: Seq<char>, r: (Wizard, InitAction)) -> bool {
    &&& r.0.args == w.args
    &&& r.0.server == w.server
    &&& r.0.tokens == w.tokens
    &&& r.0.workspace == w.workspace
    &&& r.0.rig@ == rig
    &&& w.args.name is Some ==> r.0.phase == Phase::Done && saves(r.1, w.args.name->0@, r.0)
    &&& w.args.name is None && w.args.no_interactive ==> r.0.phase == Phase::Done
        && fails_missing(r.1, "Config name"@)
    &&& w.args.name is None && !w.args.no_interactive ==> r.0.phase == Phase::Name && prompts(
        r.1,
        "Config name"@,
        Some(w.workspace@),
    )
}

/// `r` stops the wizard `w` with the error `e`.
pub open spec fn fails_with(w: Wizard, e: InitError, r: (Wizard, InitAction)) -> bool {
    r.0.args == w.args && r.0.phase == Phase::Done && r.1 == InitAction::Fail(e)
}

/// The index a menu answer picks: the first option equal to it, else the first option.
pub open spec fn chosen(options: Seq<Seq<char>>, answer: Seq<char>) -> int {
    if exists|i: int| 0 <= i < options.len() && options[i] == answer {
        choose|i: int|
            0 <= i < options.len() && options[i] == answer && forall|k: int|
                0 <= k < i ==> options[k] != answer
    } else {
        0
    }
}

/// The wizard `r` continues `w` once the workspace catalog `c` arrived: an empty catalog or
/// an unknown `--workspace` stops it; a known `--workspace` is chosen; otherwise the catalog
/// is offered as a menu, unless `--yes`.
pub open spec fn on_catalog_spec(w: Wizard, c: Seq<WorkspaceEntry>, r: (Wizard, InitAction)) -> bool {
    let ids = catalog_ids(c);
    &&& c.len() == 0 ==> fails_with(w, InitError::NoWorkspaces, r)
    &&& c.len() > 0 && w.args.workspace is Some && listed(ids, w.args.workspace->0@)
        ==> after_workspace_spec(w, w.args.workspace->0@, r)
    &&& c.len() > 0 && w.args.workspace is Some && !listed(ids, w.args.workspace->0@) ==> r.0.args
        == w.args && r.0.phase == Phase::Done && (r.1 matches InitAction::Fail(
        InitError::UnknownWorkspace(x, available),
    ) && x@ == w.args.workspace->0@ && available@ == join(ids, LIST_SEPARATOR@))
    &&& c.len() > 0 && w.args.workspace is None && w.args.no_interactive ==> r.0.args == w.args
        && r.0.phase == Phase::Done && fails_missing(r.1, "Workspace"@)
    &&& c.len() > 0 && w.args.workspace is None && !w.args.no_interactive ==> {
        &&& r.0.args == w.args
        &&& r.0.server == w.server
        &&& r.0.tokens == w.tokens
        &&& r.0.phase == Phase::WorkspaceMenu
        &&& views(r.0.options@) == workspace_labels(c)
        &&& views(r.0.values@) == ids
        &&& offers(r.1, "Workspace"@, workspace_labels(c))
    }
}

/// The wizard `r` continues `w` once the rigs of its workspace arrived: no rigs or an unknown
/// `--rig` stops it; a `--rig` naming a rig (by name or prefix) chooses the first such rig's
/// prefix; otherwise the rigs are offered as a menu, unless `--yes`.
pub open spec fn on_rigs_spec(w: Wizard, rigs: Seq<RigEntry>, r: (Wizard, InitAction)) -> bool {
    &&& rigs.len() == 0 ==> r.0.args == w.args && r.0.phase == Phase::Done && (r.1 matches InitAction::Fail(
        InitError::NoRigs(x),
    ) && x@ == w.workspace@)
    &&& rigs.len() > 0 && w.args.rig is Some ==> forall|i: int|
        is_first_rig(rigs, w.args.rig->0@, i) ==> after_rig_spec(w, rigs[i].prefix@, r)
    &&& rigs.len() > 0 && w.args.rig is Some && (forall|i: int|
        0 <= i < rigs.len() ==> !rig_matches(#[trigger] rigs[i], w.args.rig->0@)) ==> r.0.args
        == w.args && r.0.phase == Phase::Done && (r.1 matches InitAction::Fail(
        InitError::UnknownRig(x, ws, available),
    ) && x@ == w.args.rig->0@ && ws@ == w.workspace@ && available@ == join(
        rig_names(rigs),
        LIST_SEPARATOR@,
    ))
    &&& rigs.len() > 0 && w.args.rig is None && w.args.no_interactive ==> r.0.args == w.args
        && r.0.phase == Phase::Done && fails_missing(r.1, "Rig"@)
    &&& rigs.len() > 0 && w.args.rig is None && !w.args.no_interactive ==> {
        &&& r.0.args == w.args
        &&& r.0.server == w.server
        &&& r.0.tokens == w.tokens
        &&& r.0.workspace == w.workspace
        &&& r.0.phase == Phase::RigMenu
        &&& views(r.0.options@) == rig_labels(rigs)
        &&& views(r.0.values@) == rig_prefixes(rigs)
        &&& offers(r.1, "Rig"@, rig_labels(rigs))
    }
}

/// The value the menu answer picks in `w`.
pub open spec fn menu_pick(w: Wizard, answer: Seq<char>) -> Seq<char> {
    w.values@[chosen(views(w.options@), answer)]@
}

fn owned(s: &str) -> (r: String)
    ensures
        r@ == s@,
{
    s.to_owned()
}

fn missing(label: &str) -> (r: InitAction)
    ensures
        fails_missing(r, label@),
{
    InitAction::Fail(InitError::Missing(owned(label)))
}

impl Wizard {
    fn done(self) -> (r: Wizard)
        ensures
            r == (Wizard { phase: Phase::Done, ..self }),
    {
        Wizard { phase: Phase::Done, ..self }
    }

    /// Begin with the flags: the server flag is used as given; without it the
    /// user is prompted for one (defaulting to [`DEFAULT_SERVER`]), unless `--yes`.
    pub fn start(args: InitArgs) -> (r: (Wizard, InitAction))
        ensures
            r.0.args == args,
            menu_ok(r.0),
            args.server is None && !args.no_interactive ==> r.0.phase == Phase::Server
                && prompts(r.1, "Server URL"@, Some(DEFAULT_SERVER@)),
            args.server is None && args.no_interactive ==> r.0.phase == Phase::Done
                && fails_missing(r.1, "Server URL"@),
            args.server is Some ==> after_server_spec(
                Wizard { args, ..r.0 },
                args.server->0@,
                r,
            ),
            args.no_interactive ==> !is_question(r.1),
    {
        let w = Wizard {
            args,
            phase: Phase::Server,
            server: String::new(),
            tokens: Tokens { access_token: String::new(), refresh_token: String::new() },
            workspace: String::new(),
            rig: String::new(),
            options: Vec::new(),
            values: Vec::new(),
        };
        match &w.args.server {
            Some(s) => {
                let s = s.clone();
                w.after_server(s.as_str())
            },
            None => {
                if w.args.no_interactive {
                    (w.done(), missing("Server URL"))
                } else {
                    (w, InitAction::Prompt { label: owned("Server URL"), default: Some(owned(DEFAULT_SERVER)) })
                }
            },
        }
    }

    /// The server is known: a Personal Access Token logs in directly, else the browser does.
    fn after_server(self, raw: &str) -> (r: (Wizard, InitAction))
        ensures
            after_server_spec(self, raw@, r),
            menu_ok(r.0),
            r.0.args == self.args,
            self.args.no_interactive ==> !is_question(r.1),
    {
        let w = Wizard { server: raw.to_owned(), ..self };
        match &w.args.token {
            Some(t) => {
                let tokens = Tokens::from_pat(t.as_str());
                w.after_login(tokens)
            },
            None => {
                let srv = normalize_server_url(raw);
                (Wizard { phase: Phase::Login, ..w }, InitAction::BrowserLogin { server: srv })
            },
        }
    }

    /// Logged in: fetch the workspace catalog.
    fn after_login(self, tokens: Tokens) -> (r: (Wizard, InitAction))
        ensures
            !is_question(r.1),
            r.0.args == self.args,
            r.0.server == self.server,
            r.0.tokens == tokens,
            r.0.phase == Phase::Catalog,
            menu_ok(r.0),
            r.1 matches InitAction::ListWorkspaces { server, access_token } && server == self.server
                && access_token == tokens.access_token,
    {
        let srv = self.server.clone();
        let tok = tokens.access_token.clone();
        (
            Wizard { phase: Phase::Catalog, tokens, ..self },
            InitAction::ListWorkspaces { server: srv, access_token: tok },
        )
    }

    /// The workspace is chosen: fetch its rigs.
    fn after_workspace(self, workspace: String) -> (r: (Wizard, InitAction))
        ensures
            after_workspace_spec(self, workspace@, r),
            menu_ok(r.0),
            r.0.args == self.args,
            self.args.no_interactive ==> !is_question(r.1),
    {
        let srv = self.server.clone();
        let tok = self.tokens.access_token.clone();
        let ws = workspace.clone();
        (
            Wizard { phase: Phase::RigList, workspace, ..self },
            InitAction::ListRigs { server: srv, access_token: tok, workspace: ws },
        )
    }

    /// The rig is chosen: the name flag finishes; without it the user is prompted (the
    /// workspace id as the default), unless `--yes`.
    fn after_rig(self, rig: String) -> (r: (Wizard, InitAction))
        ensures
            after_rig_spec(self, rig@, r),
            menu_ok(r.0),
            r.0.args == self.args,
            self.args.no_interactive ==> !is_question(r.1),
    {
        let w = Wizard { rig, ..self };
        match &w.args.name {
            Some(n) => {
                let n = n.clone();
                w.finish(n)
            },
            None => {
                if w.args.no_interactive {
                    (w.done(), missing("Config name"))
                } else {
                    let d = w.workspace.clone();
                    (
                        Wizard { phase: Phase::Name, ..w },
                        InitAction::Prompt { label: owned("Config name"), default: Some(d) },
                    )
                }
            },
        }
    }

    /// Everything is known: save the config under `name`.
    fn finish(self, name: String) -> (r: (Wizard, InitAction))
        ensures
            !is_question(r.1),
            r.0 == (Wizard { phase: Phase::Done, ..self }),
            r.0.args == self.args,
            r.0.server == self.server,
            r.0.tokens == self.tokens,
            r.0.workspace == self.workspace,
            r.0.rig == self.rig,
            r.0.phase == Phase::Done,
            saves(r.1, name@, r.0),
    {
        let config = ProjectConfig {
            server_url: self.server.clone(),
            workspace: self.workspace.clone(),
            rig: self.rig.clone(),
            role: self.args.role.clone(),
            access_token: self.tokens.access_token.clone(),
            refresh_token: self.tokens.refresh_token.clone(),
        };
        (self.done(), InitAction::Save { name, config })
    }
    /// The value of the menu option the answer picks.
    fn menu_value(&self, answer: &str) -> (v: String)
        requires
            self.phase == Phase::WorkspaceMenu || self.phase == Phase::RigMenu,
            menu_ok(*self),
        ensures
            v@ == menu_pick(*self, answer@),
    {
        let i = position_or_zero(&self.options, answer);
        proof {
            let o = views(self.options@);
            assert forall|k: int| 0 <= k < o.len() implies o[k] == self.options@[k]@ by {}
            if exists|j: int| 0 <= j < o.len() && o[j] == answer@ {
                let j = choose|j: int|
                    0 <= j < o.len() && o[j] == answer@ && forall|k: int|
                        0 <= k < j ==> o[k] != answer@;
                assert(0 <= i < o.len() && o[i as int] == answer@);
                assert(exists|j: int|
                    0 <= j < o.len() && o[j] == answer@ && forall|k: int|
                        0 <= k < j ==> o[k] != answer@) by {
                    assert(forall|k: int| 0 <= k < i ==> o[k] != answer@);
                }
                if j < i {
                    assert(o[j] == answer@);
                } else if i < j {
                    assert(o[i as int] == answer@);
                }
                assert(j == i);
                assert(chosen(o, answer@) == i);
            } else {
                assert forall|j: int| 0 <= j < self.options@.len() implies self.options@[j]@
                    != answer@ by {
                    assert(o[j] == self.options@[j]@);
                }
                assert(i == 0);
            }
        }
        self.values[i].clone()
    }

    /// The catalog arrived.
    fn on_catalog(self, catalog: Vec<WorkspaceEntry>) -> (r: (Wizard, InitAction))
        ensures
            on_catalog_spec(self, catalog@, r),
            menu_ok(r.0),
            r.0.args == self.args,
            self.args.no_interactive ==> !is_question(r.1),
    {
        let mut ids: Vec<String> = Vec::new();
        let mut labels: Vec<String> = Vec::new();
        let mut offered: Vec<String> = Vec::new();
        let mut i: usize = 0;
        while i < catalog.len()
            invariant
                i <= catalog.len(),
                ids@.len() == i,
                labels@.len() == i,
                offered@.len() == i,
                forall|k: int| 0 <= k < i ==> (#[trigger] ids@[k])@ == catalog@[k].id@,
                forall|k: int| 0 <= k < i ==> (#[trigger] labels@[k])@ == workspace_labels(catalog@)[k],
                forall|k: int| 0 <= k < i ==> (#[trigger] offered@[k])@ == workspace_labels(catalog@)[k],
            decreases catalog.len() - i,
        {
            let e = &catalog[i];
            ids.push(e.id.clone());
            labels.push(workspace_label(e.id.as_str(), e.name.as_str(), e.status.as_str()));
            offered.push(workspace_label(e.id.as_str(), e.name.as_str(), e.status.as_str()));
            i = i + 1;
        }
        assert(views(ids@) =~= catalog_ids(catalog@));
        assert(views(labels@) =~= workspace_labels(catalog@));
        assert(views(offered@) =~= workspace_labels(catalog@));
        let flag: Option<&str> = match &self.args.workspace {
            Some(w) => Some(w.as_str()),
            None => None,
        };
        match pick_workspace(flag, &ids) {
            Err(e) => (self.done(), InitAction::Fail(e)),
            Ok(Some(ws)) => self.after_workspace(ws),
            Ok(None) => {
                if self.args.no_interactive {
                    (self.done(), missing("Workspace"))
                } else {
                    (
                        Wizard { phase: Phase::WorkspaceMenu, options: offered, values: ids, ..self },
                        InitAction::Select { label: owned("Workspace"), options: labels },
                    )
                }
            },
        }
    }

    /// The rigs of the chosen workspace arrived.
    fn on_rigs(self, rigs: Vec<RigEntry>) -> (r: (Wizard, InitAction))
        ensures
            on_rigs_spec(self, rigs@, r),
            menu_ok(r.0),
            r.0.args == self.args,
            self.args.no_interactive ==> !is_question(r.1),
    {
        let mut prefixes: Vec<String> = Vec::new();
        let mut labels: Vec<String> = Vec::new();
        let mut offered: Vec<String> = Vec::new();
        let mut i: usize = 0;
        while i < rigs.len()
            invariant
                i <= rigs.len(),
                prefixes@.len() == i,
                labels@.len() == i,
                offered@.len() == i,
                forall|k: int| 0 <= k < i ==> (#[trigger] prefixes@[k])@ == rigs@[k].prefix@,
                forall|k: int| 0 <= k < i ==> (#[trigger] labels@[k])@ == rig_labels(rigs@)[k],
                forall|k: int| 0 <= k < i ==> (#[trigger] offered@[k])@ == rig_labels(rigs@)[k],
            decreases rigs.len() - i,
        {
            let e = &rigs[i];
            prefixes.push(e.prefix.clone());
            labels.push(rig_label(e.name.as_str(), e.prefix.as_str()));
            offered.push(rig_label(e.name.as_str(), e.prefix.as_str()));
            i = i + 1;
        }
        assert(views(prefixes@) =~= rig_prefixes(rigs@));
        assert(views(labels@) =~= rig_labels(rigs@));
        assert(views(offered@) =~= rig_labels(rigs@));
        let flag: Option<&str> = match &self.args.rig {
            Some(x) => Some(x.as_str()),
            None => None,
        };
        let ws = self.workspace.clone();
        match pick_rig(flag, &rigs, ws.as_str()) {
            Err(e) => (self.done(), InitAction::Fail(e)),
            Ok(Some(p)) => {
                let ghost f = self.args.rig->0@;
                let ghost before = self;
                let r = self.after_rig(p);
                proof {
                    assert forall|k: int| is_first_rig(rigs@, f, k) implies after_rig_spec(
                        before,
                        rigs@[k].prefix@,
                        r,
                    ) by {}
                }
                r
            },
            Ok(None) => {
                if self.args.no_interactive {
                    (self.done(), missing("Rig"))
                } else {
                    (
                        Wizard { phase: Phase::RigMenu, options: offered, values: prefixes, ..self },
                        InitAction::Select { label: owned("Rig"), options: labels },
                    )
                }
            },
        }
    }

    /// Whether `event` is the kind of answer the wizard waits for (what [`Wizard::step`]
    /// requires).
    pub fn accepts(&self, event: &InitEvent) -> (b: bool)
        ensures
            b == expects(self.phase, *event),
    {
        match (self.phase, event) {
            (Phase::Server, InitEvent::Answer(_)) => true,
            (Phase::Name, InitEvent::Answer(_)) => true,
            (Phase::WorkspaceMenu, InitEvent::Answer(_)) => true,
            (Phase::RigMenu, InitEvent::Answer(_)) => true,
            (Phase::Login, InitEvent::LoggedIn(_)) => true,
            (Phase::Catalog, InitEvent::Workspaces(_)) => true,
            (Phase::RigList, InitEvent::Rigs(_)) => true,
            _ => false,
        }
    }

    /// Take the answer to the last action and decide the next one.
    pub fn step(self, event: InitEvent) -> (r: (Wizard, InitAction))
        requires
            expects(self.phase, event),
            menu_ok(self),
        ensures
            r.0.args == self.args,
            menu_ok(r.0),
            self.args.no_interactive ==> !is_question(r.1),
            self.phase == Phase::Server ==> after_server_spec(self, event->Answer_0@, r),
            self.phase == Phase::Login ==> r.0.phase == Phase::Catalog && r.0.server == self.server
                && r.0.tokens == event->LoggedIn_0 && (r.1 matches InitAction::ListWorkspaces {
                server,
                access_token,
            } && server == self.server && access_token == event->LoggedIn_0.access_token),
            self.phase == Phase::Catalog ==> on_catalog_spec(self, event->Workspaces_0@, r),
            self.phase == Phase::WorkspaceMenu ==> after_workspace_spec(
                self,
                menu_pick(self, event->Answer_0@),
                r,
            ),
            self.phase == Phase::RigList ==> on_rigs_spec(self, event->Rigs_0@, r),
            self.phase == Phase::RigMenu ==> after_rig_spec(self, menu_pick(self, event->Answer_0@), r),
            self.phase == Phase::Name ==> r.0 == (Wizard { phase: Phase::Done, ..self }) && saves(
                r.1,
                event->Answer_0@,
                r.0,
            ),
    {
        match event {
            InitEvent::Answer(a) => match self.phase {
                Phase::Server => self.after_server(a.as_str()),
                Phase::WorkspaceMenu => {
                    let ws = self.menu_value(a.as_str());
                    self.after_workspace(ws)
                },
                Phase::RigMenu => {
                    let rig = self.menu_value(a.as_str());
                    self.after_rig(rig)
                },
                _ => self.finish(a),
            },
            InitEvent::LoggedIn(t) => self.after_login(t),
            InitEvent::Workspaces(c) => self.on_catalog(c),
            InitEvent::Rigs(rigs) => self.on_rigs(rigs),
        }
    }
}


/// When `answer` occurs among `options` (at `i`), it has a first occurrence.
proof fn lemma_first_occurrence(options: Seq<Seq<char>>, answer: Seq<char>, i: int)
    requires
        0 <= i < options.len(),
        options[i] == answer,
    ensures
        exists|m: int|
            0 <= m < options.len() && options[m] == answer && forall|k: int|
                0 <= k < m ==> options[k] != answer,
    decreases i,
{
    if exists|k: int| 0 <= k < i && options[k] == answer {
        let k = choose|k: int| 0 <= k < i && options[k] == answer;
        lemma_first_occurrence(options, answer, k);
    } else {
        assert(forall|k: int| 0 <= k < i ==> options[k] != answer);
    }
}

/// A menu answer always picks one of the options on offer.
pub proof fn lemma_chosen_in_range(options: Seq<Seq<char>>, answer: Seq<char>)
    requires
        options.len() > 0,
    ensures
        0 <= chosen(options, answer) < options.len(),
{
    if exists|i: int| 0 <= i < options.len() && options[i] == answer {
        let i = choose|i: int| 0 <= i < options.len() && options[i] == answer;
        lemma_first_occurrence(options, answer, i);
    }
}

/// Whichever way the workspace is chosen — by `--workspace` or from the menu — it is an id of
/// the catalog the server listed.
pub proof fn lemma_workspace_from_catalog(
    w: Wizard,
    c: Seq<WorkspaceEntry>,
    r: (Wizard, InitAction),
    answer: Seq<char>,
    next: (Wizard, InitAction),
)
    requires
        on_catalog_spec(w, c, r),
        menu_ok(r.0),
        r.0.phase == Phase::WorkspaceMenu ==> after_workspace_spec(r.0, menu_pick(r.0, answer), next),
        r.0.phase != Phase::WorkspaceMenu ==> next == r,
    ensures
        next.0.phase == Phase::RigList ==> catalog_ids(c).contains(next.0.workspace@),
{
    if r.0.phase == Phase::WorkspaceMenu {
        lemma_chosen_in_range(views(r.0.options@), answer);
        let k = chosen(views(r.0.options@), answer);
        assert(views(r.0.values@)[k] == r.0.values@[k]@);
        assert(catalog_ids(c)[k] == next.0.workspace@);
    }
}

/// When some rig matches `f` (the one at `i`), a first one does.
proof fn lemma_first_rig(rigs: Seq<RigEntry>, f: Seq<char>, i: int)
    requires
        0 <= i < rigs.len(),
        rig_matches(rigs[i], f),
    ensures
        exists|m: int| is_first_rig(rigs, f, m),
    decreases i,
{
    if exists|k: int| 0 <= k < i && rig_matches(rigs[k], f) {
        let k = choose|k: int| 0 <= k < i && rig_matches(rigs[k], f);
        lemma_first_rig(rigs, f, k);
    } else {
        assert(is_first_rig(rigs, f, i));
    }
}

/// Whichever way the rig is chosen — by `--rig` or from the menu — it is the prefix of one of
/// the workspace's rigs.
pub proof fn lemma_rig_from_workspace(
    w: Wizard,
    rigs: Seq<RigEntry>,
    r: (Wizard, InitAction),
    answer: Seq<char>,
    next: (Wizard, InitAction),
)
    requires
        on_rigs_spec(w, rigs, r),
        menu_ok(r.0),
        r.0.phase == Phase::RigMenu ==> after_rig_spec(r.0, menu_pick(r.0, answer), next),
        r.0.phase != Phase::RigMenu ==> next == r,
    ensures
        next.1 is Save || next.0.phase == Phase::Name ==> rig_prefixes(rigs).contains(next.0.rig@),
{
    if rigs.len() > 0 && w.args.rig is Some && exists|i: int|
        0 <= i < rigs.len() && rig_matches(rigs[i], w.args.rig->0@) {
        let f = w.args.rig->0@;
        let j = choose|i: int| 0 <= i < rigs.len() && rig_matches(rigs[i], f);
        lemma_first_rig(rigs, f, j);
        let i = choose|i: int| is_first_rig(rigs, f, i);
        assert(after_rig_spec(w, rigs[i].prefix@, r));
        assert(rig_prefixes(rigs)[i] == rigs[i].prefix@);
    }
    if r.0.phase == Phase::RigMenu {
        lemma_chosen_in_range(views(r.0.options@), answer);
        let k = chosen(views(r.0.options@), answer);
        assert(views(r.0.values@)[k] == r.0.values@[k]@);
        assert(rig_prefixes(rigs)[k] == next.0.rig@);
    }
}

} // verus!
