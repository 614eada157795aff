//! `~/.config/gt/config.toml` — persistent CLI defaults.
//!
//! One setting the shell would otherwise have to pass on every invocation:
//!
//! - `default_workspace` — the tenant to assume when `GT_WORKSPACE` is unset. It sits *below*
//!   the env var in precedence (an explicit `GT_WORKSPACE` always wins) but *above* the legacy
//!   `GT_WORKSPACE_DEFAULT_OPT_IN` grace fallback.
//!
//! The file is optional: a missing file, an unreadable file, or a parse error all degrade to
//! "no config" (an empty [`Config`]) rather than aborting.

use vstd::prelude::*;

use crate::project_config::{path_join, path_join_chars};
use crate::text::{chars_of, string_from_chars};

verus! {

/// Parsed `config.toml`. Every field is optional so a partial or absent file is valid.
#[derive(Debug, Clone, PartialEq, Eq)]
pub struct Config {
    /// Tenant to assume when `GT_WORKSPACE` is unset.
    pub default_workspace: Option<String>,
}

impl Default for Config {
    fn default() -> (r: Config)
        ensures
            r.default_workspace is None,
    {
        Config { default_workspace: None }
    }
}

/// `s` is set and non-empty.
pub open spec fn set_nonempty(s: Option<&str>) -> bool {
    s matches Some(v) && v@.len() > 0
}

/// The config-file path: `$XDG_CONFIG_HOME/gt/config.toml`, falling back to
/// `$HOME/.config/gt/config.toml`; `None` only when neither variable is set (non-empty).
pub fn config_path(xdg_config_home: Option<&str>, home: Option<&str>) -> (r: Option<String>)
    ensures
        set_nonempty(xdg_config_home) ==> (r matches Some(p) && p@ == path_join(
            xdg_config_home->0@,
            "gt/config.toml"@,
        )),
        !set_nonempty(xdg_config_home) && set_nonempty(home) ==> (r matches Some(p) && p@
            == path_join(home->0@, ".config/gt/config.toml"@)),
        !set_nonempty(xdg_config_home) && !set_nonempty(home) ==> r is None,
{
    if let Some(x) = xdg_config_home {
        if !x.is_empty() {
            let p = path_join_chars(&chars_of(x), &chars_of("gt/config.toml"));
            return Some(string_from_chars(p.as_slice()));
        }
    }
    if let Some(h) = home {
        if !h.is_empty() {
            let p = path_join_chars(&chars_of(h), &chars_of(".config/gt/config.toml"));
            return Some(string_from_chars(p.as_slice()));
        }
    }
    None
}

} // verus!
