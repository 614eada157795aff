//! `gt workspace [list|create|info|use|suspend|resume|archive]` — operator-facing wrappers
//! over the MCP `workspace.*` tools.
//!
//! The online actions are thin clients: [`WorkspaceAction::online_call`] builds the tool name
//! and arguments the caller dispatches over the live MCP session, so the server stays the
//! single source of the workspace catalog. `use` is **offline** — a child process cannot mutate
//! its parent shell, so it prints an `export GT_WORKSPACE=<id>` line to `eval`.

use vstd::prelude::*;

use crate::text::{push_str, string_from_chars};

verus! {

/// The `gt workspace` sub-actions.
#[derive(Debug, Clone, PartialEq, Eq)]
pub enum WorkspaceAction {
    /// List the workspaces the catalog knows about.
    List,
    /// Create (idempotently provision) a workspace; the name defaults to the id.
    Create { id: String, name: Option<String> },
    /// Show one workspace's details.
    Info { id: String },
    /// Select a workspace for this shell: prints `export GT_WORKSPACE=<id>` to eval.
    Use { id: String },
    /// Suspend an active workspace (reversibly disable).
    Suspend { id: String },
    /// Resume a suspended workspace back to active.
    Resume { id: String },
    /// Archive a workspace (terminal).
    Archive { id: String },
}

/// What the offline `use` prints: the eval-able line on stdout, the hint on stderr (so
/// `eval "$(gt workspace use <id>)"` stays clean).
#[derive(Debug, Clone, PartialEq, Eq)]
pub struct OfflineOutput {
    pub stdout: String,
    pub stderr: String,
}

/// The MCP tool an online action calls, and its arguments as `(key, string value)` pairs.
#[derive(Debug, Clone, PartialEq, Eq)]
pub struct ToolCall {
    pub tool: &'static str,
    pub args: Vec<(String, String)>,
}

impl ToolCall {
    /// The argument under `key`, if any.
    pub fn arg(&self, key: &str) -> (r: Option<String>)
        ensures
            (exists|i: int| 0 <= i < self.args.len() && self.args@[i].0@ == key@) ==> (r matches Some(
                v,
            ) && exists|i: int|
                0 <= i < self.args.len() && self.args@[i].0@ == key@ && self.args@[i].1@ == v@),
            (forall|i: int| 0 <= i < self.args.len() ==> self.args@[i].0@ != key@) ==> r is None,
    {
        let k = crate::text::chars_of(key);
        let mut i: usize = 0;
        while i < self.args.len()
            invariant
                i <= self.args.len(),
                k@ == key@,
                forall|j: int| 0 <= j < i ==> self.args@[j].0@ != key@,
            decreases self.args.len() - i,
        {
            if crate::text::chars_eq(&crate::text::chars_of(self.args[i].0.as_str()), &k) {
                return Some(self.args[i].1.clone());
            }
            i = i + 1;
        }
        None
    }
}

/// The view of a tool call: tool name and argument pairs.
pub open spec fn call_view(c: ToolCall) -> (Seq<char>, Seq<(Seq<char>, Seq<char>)>) {
    (c.tool@, c.args@.map_values(|p: (String, String)| (p.0@, p.1@)))
}

/// A call of `tool` with the single argument `id`.
pub open spec fn id_call(tool: Seq<char>, id: Seq<char>) -> (Seq<char>, Seq<(Seq<char>, Seq<char>)>) {
    (tool, seq![("id"@, id)])
}

/// The call each online action makes; `None` for the offline `use`.
pub open spec fn spec_online_call(a: WorkspaceAction) -> Option<(Seq<char>, Seq<(Seq<char>, Seq<char>)>)> {
    match a {
        WorkspaceAction::List => Some(("workspace.list"@, Seq::empty())),
        WorkspaceAction::Create { id, name } => Some((
            "workspace.create"@,
            seq![("id"@, id@), ("name"@, match name {
                Some(n) => n@,
                None => id@,
            })],
        )),
        WorkspaceAction::Info { id } => Some(id_call("workspace.info"@, id@)),
        WorkspaceAction::Suspend { id } => Some(id_call("workspace.suspend"@, id@)),
        WorkspaceAction::Resume { id } => Some(id_call("workspace.resume"@, id@)),
        WorkspaceAction::Archive { id } => Some(id_call("workspace.archive"@, id@)),
        WorkspaceAction::Use { .. } => None,
    }
}

fn id_args(id: &String) -> (r: Vec<(String, String)>)
    ensures
        r@.map_values(|p: (String, String)| (p.0@, p.1@)) == seq![("id"@, id@)],
{
    let mut args: Vec<(String, String)> = Vec::new();
    args.push(("id".to_owned(), id.clone()));
    assert(args@.map_values(|p: (String, String)| (p.0@, p.1@)) =~= seq![("id"@, id@)]);
    args
}

impl WorkspaceAction {
    /// Whether the action runs offline (`use`): the caller then prints its
    /// [`offline_output`](Self::offline_output) and opens no MCP session.
    pub fn run_offline(&self) -> (b: bool)
        ensures
            b == (*self is Use),
    {
        match self {
            WorkspaceAction::Use { .. } => true,
            _ => false,
        }
    }

    /// What the offline `use` prints: `export GT_WORKSPACE=<id>` (stdout) and the eval hint
    /// (stderr); `None` for the online actions.
    pub fn offline_output(&self) -> (r: Option<OfflineOutput>)
        ensures
            match *self {
                WorkspaceAction::Use { id } => r matches Some(o) && o.stdout@
                    == "export GT_WORKSPACE="@ + id@ && o.stderr@ == "# run:  eval \"$(gt workspace use "@
                    + id@ + ")\"   (or export it yourself)"@,
                _ => r is None,
            },
    {
        match self {
            WorkspaceAction::Use { id } => {
                let mut out: Vec<char> = Vec::new();
                push_str(&mut out, "export GT_WORKSPACE=");
                push_str(&mut out, id.as_str());
                let mut err: Vec<char> = Vec::new();
                push_str(&mut err, "# run:  eval \"$(gt workspace use ");
                push_str(&mut err, id.as_str());
                push_str(&mut err, ")\"   (or export it yourself)");
                Some(
                    OfflineOutput {
                        stdout: string_from_chars(out.as_slice()),
                        stderr: string_from_chars(err.as_slice()),
                    },
                )
            },
            _ => None,
        }
    }

    /// The MCP tool + arguments for an online action. `None` for the offline `use`.
    pub fn online_call(&self) -> (r: Option<ToolCall>)
        ensures
            match spec_online_call(*self) {
                Some(c) => r matches Some(t) && call_view(t) == c,
                None => r is None,
            },
    {
        match self {
            WorkspaceAction::List => {
                let args: Vec<(String, String)> = Vec::new();
                assert(args@.map_values(|p: (String, String)| (p.0@, p.1@)) =~= Seq::empty());
                Some(ToolCall { tool: "workspace.list", args })
            },
            WorkspaceAction::Create { id, name } => {
                let mut args: Vec<(String, String)> = Vec::new();
                args.push(("id".to_owned(), id.clone()));
                let n = match name {
                    Some(n) => n.clone(),
                    None => id.clone(),
                };
                args.push(("name".to_owned(), n));
                assert(args@.map_values(|p: (String, String)| (p.0@, p.1@)) =~= seq![
                    ("id"@, id@),
                    ("name"@, match name {
                        Some(n) => n@,
                        None => id@,
                    }),
                ]);
                Some(ToolCall { tool: "workspace.create", args })
            },
            WorkspaceAction::Info { id } => Some(ToolCall { tool: "workspace.info", args: id_args(id) }),
            WorkspaceAction::Suspend { id } => Some(
                ToolCall { tool: "workspace.suspend", args: id_args(id) },
            ),
            WorkspaceAction::Resume { id } => Some(ToolCall { tool: "workspace.resume", args: id_args(id) }),
            WorkspaceAction::Archive { id } => Some(
                ToolCall { tool: "workspace.archive", args: id_args(id) },
            ),
            WorkspaceAction::Use { .. } => None,
        }
    }
}

/// Every action is exactly one of offline (`use`, with output) or online (with a tool call).
pub proof fn lemma_offline_xor_online(a: WorkspaceAction)
    ensures
        (a is Use) <==> spec_online_call(a) is None,
{
}

} // verus!
