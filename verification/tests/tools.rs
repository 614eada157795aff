use gt::tools::{exec_failure, tool_output, GtTool, ToolOutput};

fn argv(t: GtTool) -> Vec<String> {
    t.argv()
}

#[test]
fn each_tool_runs_its_subcommand() {
    assert_eq!(argv(GtTool::Help), vec!["--help"]);
    assert_eq!(argv(GtTool::Prime { json: false }), vec!["prime"]);
    assert_eq!(argv(GtTool::Prime { json: true }), vec!["prime", "--json"]);
    assert_eq!(argv(GtTool::ConfigList), vec!["config", "list"]);
    assert_eq!(argv(GtTool::ConfigShow), vec!["config", "show"]);
    assert_eq!(argv(GtTool::WorkspaceUse { id: "acme".into() }), vec!["workspace", "use", "acme"]);
    assert_eq!(argv(GtTool::UpdateCheck), vec!["update", "--check"]);
    assert_eq!(GtTool::Prime { json: true }.name(), "gt_prime");
    assert_eq!(GtTool::WorkspaceUse { id: "x".into() }.name(), "gt_workspace_use");
    assert_eq!(GtTool::UpdateCheck.name(), "gt_update_check");
}

#[test]
fn output_joins_stdout_and_stderr() {
    assert_eq!(
        tool_output(b"out", b"", "exit status: 0", true),
        ToolOutput { text: "out".into(), is_error: false }
    );
    assert_eq!(
        tool_output(b"out", b"warn", "exit status: 1", false),
        ToolOutput { text: "out\nwarn".into(), is_error: true }
    );
    assert_eq!(tool_output(b"", b"warn", "s", false).text, "warn");
    // whitespace-only stderr is dropped
    assert_eq!(tool_output(b"out", b"  \n", "s", true).text, "out");
    // nothing at all: the exit status stands in
    assert_eq!(tool_output(b" ", b"\n", "exit status: 3", false).text, "(exit status: 3)");
    // invalid UTF-8 is replaced, not rejected
    assert_eq!(tool_output(b"a\xffb", b"", "s", true).text, "a\u{FFFD}b");
}

#[test]
fn spawn_failure_is_an_error_result() {
    let r = exec_failure("No such file or directory (os error 2)");
    assert!(r.is_error);
    assert_eq!(r.text, "failed to exec gt: No such file or directory (os error 2)");
}
