//! `gt config` — what listing and showing the per-project named configs print.
//!
//! - `gt config list`      — every named config, the active one marked `*`
//! - `gt config use <name>`— flip the active pointer ([`ConfigStore::set_active`])
//! - `gt config show`      — the active config, its tokens redacted

use vstd::prelude::*;

use crate::project_config::{
    active_lookup, opt_view, ActiveError, ActiveLookup, ConfigStore, Lookup, PointerView, ProjectConfig, StoreError,
};
use crate::text::{chars_eq, chars_of, decimal, decimal_chars, push_all, push_str, string_from_chars};
use vstd::utf8::encode_utf8;

verus! {

/// The name the active pointer holds, if it holds one.
pub open spec fn pointer_name(p: PointerView) -> Option<Seq<char>> {
    match p {
        PointerView::Named(n) => Some(n),
        _ => None,
    }
}

/// A `gt config list` line: `* <name>` for the active config, `  <name>` for the others.
pub open spec fn spec_list_line(name: Seq<char>, active: Option<Seq<char>>) -> Seq<char> {
    (if active == Some(name) {
        "*"@
    } else {
        " "@
    }) + " "@ + name
}

/// The mark of a `gt config list` line: `*` exactly when `name` is the active name.
pub open spec fn list_mark(name: Seq<char>, active: Option<Seq<char>>) -> char {
    if active == Some(name) {
        '*'
    } else {
        ' '
    }
}

/// A list line is its mark, a space and the name; the mark is `*` exactly when the name equals
/// the active one (a name that merely starts with it is not marked).
pub proof fn lemma_list_line_marks_only_active(name: Seq<char>, active: Option<Seq<char>>)
    ensures
        spec_list_line(name, active) == seq![list_mark(name, active), ' '] + name,
        spec_list_line(name, active)[0] == '*' <==> active == Some(name),
        spec_list_line(name, active).len() == name.len() + 2,
{
    reveal_strlit("*");
    reveal_strlit(" ");
    assert(spec_list_line(name, active) =~= seq![list_mark(name, active), ' '] + name);
}

fn list_line(name: &str, active: &Option<String>) -> (r: String)
    ensures
        r@ == spec_list_line(name@, opt_view(*active)),
{
    let is_active = match active {
        Some(a) => chars_eq(&chars_of(a.as_str()), &chars_of(name)),
        None => false,
    };
    let mut v: Vec<char> = Vec::new();
    if is_active {
        push_str(&mut v, "*");
    } else {
        push_str(&mut v, " ");
    }
    push_str(&mut v, " ");
    push_str(&mut v, name);
    string_from_chars(v.as_slice())
}

/// The lines of `gt config list`, one per config in name order. An empty store lists nothing
/// (the caller points at `gt init`); otherwise an unreadable active pointer is an error.
pub fn list_lines(store: &ConfigStore) -> (r: Result<Vec<String>, StoreError>)
    requires
        store.wf(),
    ensures
        store.names_view().len() == 0 ==> (r matches Ok(lines) && lines@.len() == 0),
        store.names_view().len() > 0 && store@.active is Unreadable ==> r == Err::<
            Vec<String>,
            StoreError,
        >(StoreError::PointerUnreadable),
        store.names_view().len() > 0 && !(store@.active is Unreadable) ==> (r matches Ok(lines)
            && lines@.len() == store.names_view().len() && forall|i: int|
            0 <= i < lines@.len() ==> (#[trigger] lines@[i])@ == spec_list_line(
                store.names_view()[i],
                pointer_name(store@.active),
            )),
        store.names_view().len() > 0 && !(store@.active is Unreadable) ==> (r matches Ok(lines)
            && forall|i: int|
            0 <= i < lines@.len() ==> (#[trigger] lines@[i])@ == seq![
                if store@.active == PointerView::Named(store.names_view()[i]) {
                    '*'
                } else {
                    ' '
                },
                ' ',
            ] + store.names_view()[i]),
{
    let names = store.list();
    let mut lines: Vec<String> = Vec::new();
    if names.len() == 0 {
        return Ok(lines);
    }
    let active = match store.active_name() {
        Err(e) => {
            return Err(e);
        },
        Ok(a) => a,
    };
    let ghost act: Option<Seq<char>> = opt_view(active);
    assert(act == pointer_name(store@.active));
    let mut i: usize = 0;
    while i < names.len()
        invariant
            i <= names.len(),
            lines@.len() == i,
            act == pointer_name(store@.active),
            act == opt_view(active),
            forall|k: int| 0 <= k < names@.len() ==> (#[trigger] names@[k])@ == store.names_view()[k],
            names@.len() == store.names_view().len(),
            forall|k: int| 0 <= k < i ==> (#[trigger] lines@[k])@ == spec_list_line(
                store.names_view()[k],
                act,
            ),
        decreases names.len() - i,
    {
        lines.push(list_line(names[i].as_str(), &active));
        i = i + 1;
    }
    assert forall|i: int| 0 <= i < lines@.len() implies (#[trigger] lines@[i])@ == seq![
        if store@.active == PointerView::Named(store.names_view()[i]) {
            '*'
        } else {
            ' '
        },
        ' ',
    ] + store.names_view()[i] by {
        lemma_list_line_marks_only_active(store.names_view()[i], act);
    }
    Ok(lines)
}

/// The role as `gt config show` prints it.
pub open spec fn role_text(role: Option<String>) -> Seq<char> {
    match role {
        Some(r) => r@,
        None => "(none)"@,
    }
}

/// The lines `gt config show` prints for the config `c` saved as `name`. Tokens are secrets
/// even though the file is git-ignored: only the access token's length (in bytes) is shown.
pub open spec fn spec_show_lines(name: Seq<char>, c: ProjectConfig) -> Seq<Seq<char>> {
    seq![
        "name:       "@ + name,
        "server_url: "@ + c.server_url@,
        "workspace:  "@ + c.workspace@,
        "rig:        "@ + c.rig@,
        "role:       "@ + role_text(c.role),
        "access_token:  <redacted, "@ + decimal(encode_utf8(c.access_token@).len()) + " chars>"@,
        "refresh_token: <redacted>"@,
    ]
}

fn line2(a: &str, b: &str) -> (r: String)
    ensures
        r@ == a@ + b@,
{
    let mut v: Vec<char> = Vec::new();
    push_str(&mut v, a);
    push_str(&mut v, b);
    string_from_chars(v.as_slice())
}

/// The lines of `gt config show` for the config `c` saved as `name`.
pub fn show_config(name: &str, c: &ProjectConfig) -> (r: Vec<String>)
    ensures
        r@.len() == 7,
        forall|i: int| 0 <= i < 7 ==> (#[trigger] r@[i])@ == spec_show_lines(name@, *c)[i],
{
    let mut lines: Vec<String> = Vec::new();
    lines.push(line2("name:       ", name));
    lines.push(line2("server_url: ", c.server_url.as_str()));
    lines.push(line2("workspace:  ", c.workspace.as_str()));
    lines.push(line2("rig:        ", c.rig.as_str()));
    let role: &str = match &c.role {
        Some(r) => r.as_str(),
        None => "(none)",
    };
    lines.push(line2("role:       ", role));
    let n = c.access_token.as_str().as_bytes().len();
    let mut v: Vec<char> = Vec::new();
    push_str(&mut v, "access_token:  <redacted, ");
    push_all(&mut v, &decimal_chars(n as u64));
    push_str(&mut v, " chars>");
    lines.push(string_from_chars(v.as_slice()));
    lines.push("refresh_token: <redacted>".to_owned());
    assert(lines@[4]@ == spec_show_lines(name@, *c)[4]);
    assert(n as nat == encode_utf8(c.access_token@).len());
    assert(lines@[5]@ == spec_show_lines(name@, *c)[5]);
    assert(lines@[6]@ == spec_show_lines(name@, *c)[6]);
    lines
}

/// `gt config show`: the active config's lines, or why there is none to show.
pub fn show_lines(store: &ConfigStore) -> (r: Result<Vec<String>, ActiveError>)
    requires
        store.wf(),
    ensures
        match active_lookup(store@) {
            ActiveLookup::Named(n, Lookup::Found(c)) => r matches Ok(lines) && lines@.len() == 7
                && forall|i: int|
                0 <= i < 7 ==> (#[trigger] lines@[i])@ == spec_show_lines(n, c)[i],
            ActiveLookup::Unset => r == Err::<Vec<String>, ActiveError>(ActiveError::NoActive),
            ActiveLookup::PointerUnreadable => r == Err::<Vec<String>, ActiveError>(
                ActiveError::Store(StoreError::PointerUnreadable),
            ),
            ActiveLookup::Named(n, Lookup::Missing) => r matches Err(ActiveError::ActiveMissing(s))
                && s@ == n,
            ActiveLookup::Named(n, Lookup::Unreadable) => r matches Err(
                ActiveError::Store(StoreError::Unreadable(s)),
            ) && s@ == n,
        },
{
    match store.active_entry() {
        Err(e) => Err(e),
        Ok((name, c)) => Ok(show_config(name.as_str(), &c)),
    }
}

} // verus!
