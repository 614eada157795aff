use gt::mcp_cmd::{args_source, tool_args, ArgsError, ArgsSource};

#[test]
fn args_come_from_the_flag_or_stdin() {
    assert_eq!(args_source(None), ArgsSource::NoArgs);
    assert_eq!(args_source(Some("-")), ArgsSource::Stdin);
    assert_eq!(args_source(Some("{}")), ArgsSource::Inline);
    assert_eq!(args_source(Some("--")), ArgsSource::Inline);
}

#[test]
fn blank_args_are_none_and_json_is_parsed() {
    assert!(matches!(tool_args(None), Ok(None)));
    assert!(matches!(tool_args(Some("  \n")), Ok(None)));
    let v = tool_args(Some(r#"{"id":"hq-x.1","target":"working"}"#)).unwrap().unwrap();
    assert_eq!(v["id"], "hq-x.1");
    assert_eq!(v["target"], "working");
    assert!(matches!(tool_args(Some("{not json")), Err(ArgsError::InvalidJson(_))));
    // the tool input schema is an object: other documents are refused
    assert!(matches!(tool_args(Some("[1]")), Err(ArgsError::NotObject)));
    assert!(matches!(tool_args(Some(" 42 ")), Err(ArgsError::NotObject)));
}
