//! `gt mcp call|list|resources|resource` — the shell MCP-client surface.
//!
//! Each op runs one authenticated MCP call against the active `.gt-config` and prints the
//! result as pretty JSON; the caller makes the call. This module resolves a tool call's
//! arguments: omitted, inline JSON, or `-` to read them from stdin.

use vstd::prelude::*;

use crate::json::{is_object, json_doc, json_is_object, json_valid, parse_json};
use crate::text::{chars_of, trim, trim_chars};

verus! {

/// Where a tool call's arguments come from.
#[derive(Debug, Clone, Copy, PartialEq, Eq)]
pub enum ArgsSource {
    /// No argument given: the tool is called without arguments.
    NoArgs,
    /// `-`: read the JSON from stdin.
    Stdin,
    /// The argument itself is the JSON text.
    Inline,
}

/// Where the arguments of `gt mcp call <tool> [args]` come from.
pub fn args_source(args: Option<&str>) -> (r: ArgsSource)
    ensures
        args is None ==> r == ArgsSource::NoArgs,
        args matches Some(a) && a@ == "-"@ ==> r == ArgsSource::Stdin,
        args matches Some(a) && a@ != "-"@ ==> r == ArgsSource::Inline,
{
    match args {
        None => ArgsSource::NoArgs,
        Some(a) => {
            let v = chars_of(a);
            proof {
                reveal_strlit("-");
            }
            if v.len() == 1 && v[0] == '-' {
                assert(a@ =~= "-"@);
                ArgsSource::Stdin
            } else {
                assert(a@ != "-"@);
                ArgsSource::Inline
            }
        },
    }
}

/// Why a tool call's arguments were refused.
#[derive(Debug)]
pub enum ArgsError {
    /// The text is not valid JSON.
    InvalidJson(serde_json::Error),
    /// The text is a JSON document other than an object (the tool input schema is one).
    NotObject,
}

/// The arguments to send: none when there is no text or it is only whitespace, else the
/// parsed JSON document, which must be an object; text that is not JSON, or a document that
/// is not an object, is an error.
pub fn tool_args(raw: Option<&str>) -> (r: Result<Option<serde_json::Value>, ArgsError>)
    ensures
        raw is None ==> r matches Ok(None),
        raw matches Some(t) && trim(t@).len() == 0 ==> r matches Ok(None),
        raw matches Some(t) && trim(t@).len() > 0 && json_valid(t@) && json_is_object(
            json_doc(t@),
        ) ==> (r matches Ok(Some(v)) && v == json_doc(raw->0@)),
        raw matches Some(t) && trim(t@).len() > 0 && json_valid(t@) && !json_is_object(
            json_doc(t@),
        ) ==> (r matches Err(ArgsError::NotObject)),
        raw matches Some(t) && trim(t@).len() > 0 && !json_valid(t@) ==> (r matches Err(
            ArgsError::InvalidJson(_),
        )),
{
    match raw {
        None => Ok(None),
        Some(t) => {
            if trim_chars(&chars_of(t)).len() == 0 {
                return Ok(None);
            }
            match parse_json(t) {
                Ok(v) => {
                    if is_object(&v) {
                        Ok(Some(v))
                    } else {
                        Err(ArgsError::NotObject)
                    }
                },
                Err(e) => Err(ArgsError::InvalidJson(e)),
            }
        },
    }
}

} // verus!
