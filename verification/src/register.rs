//! `gt register` / `gt unregister` — what (de)registering gt as MCP servers changes in a
//! client config.
//!
//! Two stdio MCP servers are installed so a model discovers them automatically:
//!   - `gt`       → `gt mcp`   (proxy to the orchestrator's tools, authenticated)
//!   - `gt-tools` → `gt tools` (gt's own subcommands as tools)
//!
//! The default target is the project file `./.mcp.json`; `--global` targets the MCP client's
//! user-level config file in `$HOME` (its top-level `mcpServers`). Existing entries and
//! unrelated keys are preserved; only the `gt`/`gt-tools` keys are added or removed. The caller
//! reads and writes the file; this module decides the target and computes the new text.

use vstd::prelude::*;

use crate::project_config::{path_join, path_join_chars};
use crate::json::{
    array_value, json_doc, json_is_object, json_items, json_member, json_pretty, json_str,
    json_valid, map_insert, map_member, map_remove, new_map, object_of, object_value,
    parse_json, string_value, to_pretty,
};
use crate::text::{chars_of, is_blank, push_str, string_from_chars, trim, views};

verus! {

/// Why the config could not be edited.
#[derive(Debug, Clone, Copy, PartialEq, Eq)]
pub enum RegisterError {
    /// The config is not JSON.
    Parse,
    /// The config's root is not a JSON object.
    RootNotObject,
    /// Its `mcpServers` is not a JSON object.
    ServersNotObject,
    /// `--global` and `HOME` is unset.
    HomeUnset,
    /// The current directory could not be resolved.
    NoCurrentDir,
}

/// The config file to edit: `$HOME/<global_file>` with `--global`, else `<cwd>/.mcp.json`.
pub fn target_path(global: bool, home: Option<&str>, cwd: Option<&str>, global_file: &str) -> (r: Result<
    String,
    RegisterError,
>)
    ensures
        global && home is Some ==> (r matches Ok(p) && p@ == path_join(home->0@, global_file@)),
        global && home is None ==> r == Err::<String, RegisterError>(RegisterError::HomeUnset),
        !global && cwd is Some ==> (r matches Ok(p) && p@ == path_join(cwd->0@, ".mcp.json"@)),
        !global && cwd is None ==> r == Err::<String, RegisterError>(RegisterError::NoCurrentDir),
{
    if global {
        match home {
            Some(h) => Ok(
                string_from_chars(path_join_chars(&chars_of(h), &chars_of(global_file)).as_slice()),
            ),
            None => Err(RegisterError::HomeUnset),
        }
    } else {
        match cwd {
            Some(c) => Ok(
                string_from_chars(path_join_chars(&chars_of(c), &chars_of(".mcp.json")).as_slice()),
            ),
            None => Err(RegisterError::NoCurrentDir),
        }
    }
}

/// The existing config text counts as an empty object: there is none, or it is blank.
pub open spec fn starts_empty(existing: Option<Seq<char>>) -> bool {
    existing is None || trim(existing->0).len() == 0
}

/// The member `key` of the existing config's root (none of an empty config).
pub open spec fn root_member(existing: Option<Seq<char>>, key: Seq<char>) -> Option<serde_json::Value> {
    if starts_empty(existing) {
        None
    } else {
        json_member(json_doc(existing->0), key)
    }
}

/// The member `key` of the existing config's `mcpServers` (none when it has none).
pub open spec fn old_server(existing: Option<Seq<char>>, key: Seq<char>) -> Option<serde_json::Value> {
    match root_member(existing, "mcpServers"@) {
        Some(s) => json_member(s, key),
        None => None,
    }
}

/// The entry that runs `gt <sub>` as a stdio server with the executable `exe`:
/// `{"command": exe, "args": [sub]}` and nothing else.
pub open spec fn is_server_entry(v: serde_json::Value, exe: Seq<char>, sub: Seq<char>) -> bool {
    &&& json_is_object(v)
    &&& json_member(v, "command"@) matches Some(c) && json_str(c) == Some(exe)
    &&& json_member(v, "args"@) matches Some(a) && json_items(a) matches Some(items) && items.len()
        == 1 && json_str(items[0]) == Some(sub)
    &&& forall|k: Seq<char>|
        k != "command"@ && k != "args"@ ==> #[trigger] json_member(v, k) is None
}

/// The gt entries that unregistering removes: `gt`, then `gt-tools`, each when present.
pub open spec fn removed_of(existing: Option<Seq<char>>) -> Seq<Seq<char>> {
    (if old_server(existing, "gt"@) is Some {
        seq!["gt"@]
    } else {
        Seq::empty()
    }) + (if old_server(existing, "gt-tools"@) is Some {
        seq!["gt-tools"@]
    } else {
        Seq::empty()
    })
}

/// `new` is the existing config after the edit: every root member but `mcpServers` kept, and
/// `mcpServers` an object whose `gt`/`gt-tools` entries are removed (`remove`) or set to the
/// servers running `gt mcp` / `gt tools` with `exe`, every other entry kept.
pub open spec fn edited(existing: Option<Seq<char>>, exe: Seq<char>, remove: bool, new: serde_json::Value) -> bool {
    &&& json_is_object(new)
    &&& forall|k: Seq<char>|
        k != "mcpServers"@ ==> #[trigger] json_member(new, k) == root_member(existing, k)
    &&& json_member(new, "mcpServers"@) matches Some(s) && json_is_object(s) && {
        &&& forall|k: Seq<char>|
            k != "gt"@ && k != "gt-tools"@ ==> #[trigger] json_member(s, k) == old_server(existing, k)
        &&& remove ==> json_member(s, "gt"@) is None && json_member(s, "gt-tools"@) is None
        &&& !remove ==> (json_member(s, "gt"@) matches Some(e) && is_server_entry(e, exe, "mcp"@))
        &&& !remove ==> (json_member(s, "gt-tools"@) matches Some(e) && is_server_entry(
            e,
            exe,
            "tools"@,
        ))
    }
}

/// The keys the edit touches are distinct texts.
proof fn lemma_keys_distinct()
    ensures
        "command"@ != "args"@,
        "gt"@ != "gt-tools"@,
        "gt"@ != "mcpServers"@,
        "gt-tools"@ != "mcpServers"@,
{
    reveal_strlit("command");
    reveal_strlit("args");
    reveal_strlit("gt");
    reveal_strlit("gt-tools");
    reveal_strlit("mcpServers");
    assert("command"@.len() != "args"@.len());
    assert("gt"@.len() != "gt-tools"@.len());
    assert("gt"@.len() != "mcpServers"@.len());
    assert("gt-tools"@.len() != "mcpServers"@.len());
}

fn server_entry(exe: &str, sub: &str) -> (r: serde_json::Value)
    ensures
        is_server_entry(r, exe@, sub@),
{
    proof {
        lemma_keys_distinct();
    }
    let mut m = new_map();
    map_insert(&mut m, "command", string_value(exe));
    let mut items: Vec<serde_json::Value> = Vec::new();
    items.push(string_value(sub));
    map_insert(&mut m, "args", array_value(items));
    object_value(m)
}

/// The edited client config for `gt register` (`remove` false) or `gt unregister` (`remove`
/// true), from its existing text (`None` when there is no file): the new text (pretty JSON and
/// a newline) and the entries set or removed. No text or blank text counts as `{}`; the root
/// and its `mcpServers` (created when absent) must be objects.
pub fn register_edit(existing: Option<&str>, exe: &str, remove: bool) -> (r: Result<
    (String, Vec<String>),
    RegisterError,
>)
    ensures
        !starts_empty(opt_chars(existing)) && !json_valid(existing->0@) ==> r
            == Err::<(String, Vec<String>), RegisterError>(RegisterError::Parse),
        !starts_empty(opt_chars(existing)) && json_valid(existing->0@) && !json_is_object(
            json_doc(existing->0@),
        ) ==> r == Err::<(String, Vec<String>), RegisterError>(RegisterError::RootNotObject),
        root_ok(opt_chars(existing)) && (root_member(opt_chars(existing), "mcpServers"@) matches Some(
            s,
        ) && !json_is_object(s)) ==> r == Err::<(String, Vec<String>), RegisterError>(
            RegisterError::ServersNotObject,
        ),
        root_ok(opt_chars(existing)) && !(root_member(opt_chars(existing), "mcpServers"@) matches Some(
            s,
        ) && !json_is_object(s)) ==> r is Ok,
        r matches Ok((text, names)) ==> (exists|new: serde_json::Value|
            edited(opt_chars(existing), exe@, remove, new) && text@ == json_pretty(new) + "\n"@)
            && views(names@) == (if remove {
            removed_of(opt_chars(existing))
        } else {
            seq!["gt"@, "gt-tools"@]
        }),
{
    proof {
        lemma_keys_distinct();
    }
    let ghost e = opt_chars(existing);
    let root = match existing {
        Some(t) => {
            if is_blank(t) {
                object_value(new_map())
            } else {
                match parse_json(t) {
                    Ok(v) => v,
                    Err(_) => {
                        return Err(RegisterError::Parse);
                    },
                }
            }
        },
        None => object_value(new_map()),
    };
    assert(forall|k: Seq<char>| #[trigger] json_member(root, k) == root_member(e, k));
    let mut rm = match object_of(root) {
        Some(m) => m,
        None => {
            return Err(RegisterError::RootNotObject);
        },
    };
    let mut sm = match map_remove(&mut rm, "mcpServers") {
        None => new_map(),
        Some(s) => match object_of(s) {
            Some(m) => m,
            None => {
                return Err(RegisterError::ServersNotObject);
            },
        },
    };
    assert(forall|k: Seq<char>| #[trigger] map_member(sm, k) == old_server(e, k));
    let mut names: Vec<String> = Vec::new();
    if remove {
        if map_remove(&mut sm, "gt").is_some() {
            names.push("gt".to_owned());
        }
        if map_remove(&mut sm, "gt-tools").is_some() {
            names.push("gt-tools".to_owned());
        }
        assert(views(names@) =~= removed_of(e));
    } else {
        map_insert(&mut sm, "gt", server_entry(exe, "mcp"));
        map_insert(&mut sm, "gt-tools", server_entry(exe, "tools"));
        names.push("gt".to_owned());
        names.push("gt-tools".to_owned());
        assert(views(names@) =~= seq!["gt"@, "gt-tools"@]);
    }
    let servers = object_value(sm);
    map_insert(&mut rm, "mcpServers", servers);
    let new = object_value(rm);
    assert(edited(e, exe@, remove, new));
    let text = match to_pretty(&new) {
        Ok(t) => t,
        Err(_) => {
            proof {
                assert(false);
            }
            String::new()
        },
    };
    let mut v = chars_of(text.as_str());
    v.push('\n');
    assert(v@ =~= json_pretty(new) + "\n"@) by {
        reveal_strlit("\n");
    }
    Ok((string_from_chars(v.as_slice()), names))
}

/// The existing config is usable as a root: empty, or valid JSON that is an object.
pub open spec fn root_ok(existing: Option<Seq<char>>) -> bool {
    starts_empty(existing) || (json_valid(existing->0) && json_is_object(json_doc(existing->0)))
}

/// The view of an optional string.
pub open spec fn opt_chars(o: Option<&str>) -> Option<Seq<char>> {
    match o {
        Some(s) => Some(s@),
        None => None,
    }
}

/// What `gt unregister` reports: that there was nothing to remove, or the removed keys as a
/// list (`["gt", "gt-tools"]`).
pub fn removal_message(removed: &Vec<String>, path: &str) -> (r: String)
    ensures
        removed.len() == 0 ==> r@ == "gt: no gt entries in "@ + path@,
        removed.len() > 0 ==> r@ == "gt: unregistered "@ + quoted_list(views(removed@)) + " from "@
            + path@,
{
    let mut v: Vec<char> = Vec::new();
    if removed.len() == 0 {
        push_str(&mut v, "gt: no gt entries in ");
        push_str(&mut v, path);
        return string_from_chars(v.as_slice());
    }
    push_str(&mut v, "gt: unregistered ");
    let ghost start = v@;
    v.push('[');
    let mut i: usize = 0;
    while i < removed.len()
        invariant
            i <= removed.len(),
            v@ == start + seq!['['] + quoted_items(views(removed@).take(i as int)),
        decreases removed.len() - i,
    {
        let ghost before = v@;
        if i > 0 {
            push_str(&mut v, ", ");
        }
        v.push('"');
        push_str(&mut v, removed[i].as_str());
        v.push('"');
        proof {
            let parts = views(removed@).take(i as int + 1);
            assert(parts.drop_last() =~= views(removed@).take(i as int));
            assert(parts.last() == removed@[i as int]@);
            if i == 0 {
                assert(quoted_items(parts) =~= seq!['"'] + removed@[i as int]@ + seq!['"']);
            } else {
                assert(quoted_items(parts) =~= quoted_items(parts.drop_last()) + ", "@ + seq!['"']
                    + removed@[i as int]@ + seq!['"']);
            }
            assert(v@ =~= start + seq!['['] + quoted_items(parts));
        }
        i = i + 1;
    }
    v.push(']');
    push_str(&mut v, " from ");
    push_str(&mut v, path);
    assert(views(removed@).take(removed.len() as int) =~= views(removed@));
    assert(v@ =~= "gt: unregistered "@ + quoted_list(views(removed@)) + " from "@ + path@);
    string_from_chars(v.as_slice())
}

/// The items double-quoted and separated by `, `.
pub open spec fn quoted_items(items: Seq<Seq<char>>) -> Seq<char>
    decreases items.len(),
{
    if items.len() == 0 {
        Seq::empty()
    } else if items.len() == 1 {
        seq!['"'] + items[0] + seq!['"']
    } else {
        quoted_items(items.drop_last()) + ", "@ + seq!['"'] + items.last() + seq!['"']
    }
}

/// The items as a bracketed list of quoted strings (a `Debug`-printed list of plain names).
pub open spec fn quoted_list(items: Seq<Seq<char>>) -> Seq<char> {
    seq!['['] + quoted_items(items) + seq![']']
}

/// Registering and then unregistering removes both gt entries, and leaves every other root
/// member and every other `mcpServers` entry as the config had them.
pub proof fn lemma_unregister_after_register(
    existing: Option<Seq<char>>,
    exe: Seq<char>,
    registered: serde_json::Value,
    text: Seq<char>,
    unregistered: serde_json::Value,
)
    requires
        edited(existing, exe, false, registered),
        text == json_pretty(registered),
        json_valid(text),
        json_doc(text) == registered,
        trim(text).len() > 0,
        edited(Some(text), exe, true, unregistered),
    ensures
        removed_of(Some(text)) == seq!["gt"@, "gt-tools"@],
        forall|k: Seq<char>|
            k != "mcpServers"@ ==> #[trigger] json_member(unregistered, k) == root_member(existing, k),
        json_member(unregistered, "mcpServers"@) matches Some(s) && (forall|k: Seq<char>|
            k != "gt"@ && k != "gt-tools"@ ==> #[trigger] json_member(s, k) == old_server(existing, k))
            && json_member(s, "gt"@) is None && json_member(s, "gt-tools"@) is None,
{
    lemma_keys_distinct();
    assert(removed_of(Some(text)) =~= seq!["gt"@, "gt-tools"@]);
}

/// Unregistering never touches an unrelated entry: everything it removes is a gt entry that
/// the config held.
pub proof fn lemma_unregister_touches_only_gt_keys(existing: Option<Seq<char>>)
    ensures
        forall|i: int|
            0 <= i < removed_of(existing).len() ==> (#[trigger] removed_of(existing)[i] == "gt"@
                || removed_of(existing)[i] == "gt-tools"@) && old_server(
                existing,
                removed_of(existing)[i],
            ) is Some,
{
}

} // verus!
