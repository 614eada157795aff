//! `gt tools` — gt's OWN subcommands exposed as MCP tools.
//!
//! Each tool re-invokes this same binary with the matching subcommand, so its behaviour is the
//! CLI's; the caller serves the tools over stdio and runs the process. This module fixes which
//! command line each tool runs and how the process's output becomes the tool's result.

use vstd::prelude::*;

use crate::oauth_login::{from_utf8_lossy, utf8_lossy};
use crate::text::{chars_of, push_str, string_from_chars, trim, trim_chars};

verus! {

/// One of gt's own subcommands, as a tool.
#[derive(Debug, Clone, PartialEq, Eq)]
pub enum GtTool {
    /// `gt --help`.
    Help,
    /// `gt prime`, or `gt prime --json` when `json`.
    Prime { json: bool },
    /// `gt config list`.
    ConfigList,
    /// `gt config show`.
    ConfigShow,
    /// `gt workspace use <id>`.
    WorkspaceUse { id: String },
    /// `gt update --check`.
    UpdateCheck,
}

/// The command line a tool runs (after the binary's path).
pub open spec fn spec_argv(t: GtTool) -> Seq<Seq<char>> {
    match t {
        GtTool::Help => seq!["--help"@],
        GtTool::Prime { json } => if json {
            seq!["prime"@, "--json"@]
        } else {
            seq!["prime"@]
        },
        GtTool::ConfigList => seq!["config"@, "list"@],
        GtTool::ConfigShow => seq!["config"@, "show"@],
        GtTool::WorkspaceUse { id } => seq!["workspace"@, "use"@, id@],
        GtTool::UpdateCheck => seq!["update"@, "--check"@],
    }
}

/// The tool names the server advertises.
pub open spec fn spec_tool_name(t: GtTool) -> Seq<char> {
    match t {
        GtTool::Help => "gt_help"@,
        GtTool::Prime { .. } => "gt_prime"@,
        GtTool::ConfigList => "gt_config_list"@,
        GtTool::ConfigShow => "gt_config_show"@,
        GtTool::WorkspaceUse { .. } => "gt_workspace_use"@,
        GtTool::UpdateCheck => "gt_update_check"@,
    }
}

fn owned(s: &str) -> (r: String)
    ensures
        r@ == s@,
{
    s.to_owned()
}

impl GtTool {
    /// The tool's advertised name.
    pub fn name(&self) -> (r: &'static str)
        ensures
            r@ == spec_tool_name(*self),
    {
        match self {
            GtTool::Help => "gt_help",
            GtTool::Prime { .. } => "gt_prime",
            GtTool::ConfigList => "gt_config_list",
            GtTool::ConfigShow => "gt_config_show",
            GtTool::WorkspaceUse { .. } => "gt_workspace_use",
            GtTool::UpdateCheck => "gt_update_check",
        }
    }

    /// The arguments the tool passes to `gt`.
    pub fn argv(&self) -> (r: Vec<String>)
        ensures
            r@.len() == spec_argv(*self).len(),
            forall|i: int| 0 <= i < r@.len() ==> (#[trigger] r@[i])@ == spec_argv(*self)[i],
    {
        let mut v: Vec<String> = Vec::new();
        match self {
            GtTool::Help => {
                v.push(owned("--help"));
            },
            GtTool::Prime { json } => {
                v.push(owned("prime"));
                if *json {
                    v.push(owned("--json"));
                }
            },
            GtTool::ConfigList => {
                v.push(owned("config"));
                v.push(owned("list"));
            },
            GtTool::ConfigShow => {
                v.push(owned("config"));
                v.push(owned("show"));
            },
            GtTool::WorkspaceUse { id } => {
                v.push(owned("workspace"));
                v.push(owned("use"));
                v.push(id.clone());
            },
            GtTool::UpdateCheck => {
                v.push(owned("update"));
                v.push(owned("--check"));
            },
        }
        v
    }
}

/// The tool result text: stdout, then stderr on a line of its own when stderr has more than
/// whitespace; when that is blank too, the exit status in parentheses.
pub open spec fn spec_tool_body(stdout: Seq<char>, stderr: Seq<char>, status: Seq<char>) -> Seq<char> {
    let body = if trim(stderr).len() > 0 {
        if stdout.len() > 0 {
            stdout + seq!['\n'] + stderr
        } else {
            stderr
        }
    } else {
        stdout
    };
    if trim(body).len() == 0 {
        seq!['('] + status + seq![')']
    } else {
        body
    }
}

/// A tool call's result: its text, and whether it reports an error.
#[derive(Debug, Clone, PartialEq, Eq)]
pub struct ToolOutput {
    pub text: String,
    pub is_error: bool,
}

fn is_blank(v: &Vec<char>) -> (b: bool)
    ensures
        b == (trim(v@).len() == 0),
{
    trim_chars(v).len() == 0
}

/// The result of a finished `gt` run: its output (decoded as UTF-8, lossily) as the text, an
/// error result unless the process exited successfully.
pub fn tool_output(stdout: &[u8], stderr: &[u8], status: &str, success: bool) -> (r: ToolOutput)
    ensures
        r.text@ == spec_tool_body(utf8_lossy(stdout@), utf8_lossy(stderr@), status@),
        r.is_error == !success,
{
    let mut body = chars_of(from_utf8_lossy(stdout).as_str());
    let err = chars_of(from_utf8_lossy(stderr).as_str());
    let ghost out = body@;
    let out_len = body.len();
    if !is_blank(&err) {
        if out_len > 0 {
            body.push('\n');
        }
        let mut i: usize = 0;
        let ghost start = body@;
        while i < err.len()
            invariant
                i <= err.len(),
                body@ == start + err@.subrange(0, i as int),
            decreases err.len() - i,
        {
            body.push(err[i]);
            i = i + 1;
        }
        assert(err@.subrange(0, err@.len() as int) =~= err@);
        proof {
            if out_len == 0 {
                assert(body@ =~= err@);
            } else {
                assert(body@ =~= out + seq!['\n'] + err@);
            }
        }
    }
    let ghost mid = body@;
    assert(mid == (if trim(err@).len() > 0 {
        if out.len() > 0 {
            out + seq!['\n'] + err@
        } else {
            err@
        }
    } else {
        out
    }));
    if is_blank(&body) {
        let mut v: Vec<char> = Vec::new();
        v.push('(');
        push_str(&mut v, status);
        v.push(')');
        assert(v@ =~= seq!['('] + status@ + seq![')']);
        body = v;
    }
    ToolOutput { text: string_from_chars(body.as_slice()), is_error: !success }
}

/// The result when `gt` could not be started at all.
pub fn exec_failure(error: &str) -> (r: ToolOutput)
    ensures
        r.text@ == "failed to exec gt: "@ + error@,
        r.is_error,
{
    let mut v: Vec<char> = Vec::new();
    push_str(&mut v, "failed to exec gt: ");
    push_str(&mut v, error);
    ToolOutput { text: string_from_chars(v.as_slice()), is_error: true }
}

/// A tool's result text keeps what the process printed: stdout alone when stderr is blank,
/// stderr alone when stdout is empty, and the exit status in parentheses only when both are
/// blank.
pub proof fn lemma_tool_body_keeps_output(stdout: Seq<char>, stderr: Seq<char>, status: Seq<char>)
    ensures
        trim(stderr).len() == 0 && trim(stdout).len() > 0 ==> spec_tool_body(stdout, stderr, status)
            == stdout,
        trim(stderr).len() > 0 && stdout.len() == 0 ==> spec_tool_body(stdout, stderr, status)
            == stderr,
        trim(stderr).len() == 0 && trim(stdout).len() == 0 ==> spec_tool_body(
            stdout,
            stderr,
            status,
        ) == seq!['('] + status + seq![')'],
{
}

} // verus!
