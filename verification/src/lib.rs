//! Verified core of the `gt` client CLI.

pub mod text;
pub mod project_config;
pub mod oauth_login;
pub mod session;
pub mod config;
pub mod prime;
pub mod workspace_cmd;
pub mod init;
pub mod update;
pub mod tools;
pub mod quota;
pub mod compose;
pub mod register;
pub mod config_cmd;
pub mod json;
pub mod mcp_cmd;
