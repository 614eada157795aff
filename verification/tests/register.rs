use gt::register::{register_edit, removal_message, target_path, RegisterError};
use serde_json::Value;

fn edit(existing: Option<&str>, remove: bool) -> Result<(Value, Vec<String>), RegisterError> {
    let (text, names) = register_edit(existing, "/usr/bin/gt", remove)?;
    assert!(text.ends_with("}\n"));
    Ok((serde_json::from_str(&text).unwrap(), names))
}

fn entry(sub: &str) -> Value {
    let mut m = serde_json::Map::new();
    m.insert("command".into(), Value::String("/usr/bin/gt".into()));
    m.insert("args".into(), Value::Array(vec![Value::String(sub.into())]));
    Value::Object(m)
}

#[test]
fn target_is_project_or_global() {
    let g = ".client.json";
    assert_eq!(target_path(false, Some("/home/u"), Some("/repo"), g), Ok("/repo/.mcp.json".into()));
    assert_eq!(target_path(true, Some("/home/u"), Some("/repo"), g), Ok("/home/u/.client.json".into()));
    assert_eq!(target_path(true, None, Some("/repo"), g), Err(RegisterError::HomeUnset));
    assert_eq!(target_path(false, None, None, g), Err(RegisterError::NoCurrentDir));
}

#[test]
fn register_sets_both_servers_and_keeps_the_rest() {
    let old = r#"{"theme": "dark", "mcpServers": {"other": {"command": "x"}, "gt": 1}}"#;
    let (v, names) = edit(Some(old), false).unwrap();
    assert_eq!(names, vec!["gt".to_string(), "gt-tools".to_string()]);
    assert_eq!(v["theme"], "dark");
    assert_eq!(v["mcpServers"]["other"]["command"], "x");
    assert_eq!(v["mcpServers"]["gt"], entry("mcp"));
    assert_eq!(v["mcpServers"]["gt-tools"], entry("tools"));
    // a missing or blank file counts as an empty object
    for existing in [None, Some(""), Some("  \n")] {
        let (v, _) = edit(existing, false).unwrap();
        assert_eq!(v.as_object().unwrap().len(), 1);
        assert_eq!(v["mcpServers"].as_object().unwrap().len(), 2);
    }
}

#[test]
fn unregister_removes_only_present_gt_entries() {
    let old = r#"{"mcpServers": {"gt-tools": {}, "other": {}, "gt": {}}}"#;
    let (v, names) = edit(Some(old), true).unwrap();
    assert_eq!(names, vec!["gt".to_string(), "gt-tools".to_string()]);
    assert_eq!(v["mcpServers"].as_object().unwrap().keys().collect::<Vec<_>>(), vec!["other"]);
    let (_, names) = edit(Some(r#"{"mcpServers": {"other": {}}}"#), true).unwrap();
    assert!(names.is_empty());
    let (v, names) = edit(None, true).unwrap();
    assert!(names.is_empty());
    assert_eq!(v, serde_json::from_str::<Value>(r#"{"mcpServers": {}}"#).unwrap());
    // registering then unregistering restores the entries around gt
    let (text, _) = register_edit(Some(r#"{"a": 1, "mcpServers": {"b": 2}}"#), "/usr/bin/gt", false).unwrap();
    let (v, _) = edit(Some(&text), true).unwrap();
    assert_eq!(v, serde_json::from_str::<Value>(r#"{"a": 1, "mcpServers": {"b": 2}}"#).unwrap());
}

#[test]
fn bad_configs_are_refused() {
    assert_eq!(register_edit(Some("{oops"), "gt", false), Err(RegisterError::Parse));
    assert_eq!(register_edit(Some("[1]"), "gt", false), Err(RegisterError::RootNotObject));
    assert_eq!(
        register_edit(Some(r#"{"mcpServers": []}"#), "gt", true),
        Err(RegisterError::ServersNotObject)
    );
}

#[test]
fn removal_report() {
    assert_eq!(removal_message(&Vec::new(), "./.mcp.json"), "gt: no gt entries in ./.mcp.json");
    let removed = vec!["gt".to_string(), "gt-tools".to_string()];
    assert_eq!(
        removal_message(&removed, "./.mcp.json"),
        format!("gt: unregistered {:?} from ./.mcp.json", ["gt", "gt-tools"])
    );
    assert_eq!(
        removal_message(&vec!["gt".to_string()], "p"),
        "gt: unregistered [\"gt\"] from p"
    );
}
