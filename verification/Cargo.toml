[package]
name = "gt"
version = "0.1.0"
edition = "2021"
publish = false

[dependencies]
anyhow = "=1.0.104"
base64 = "=0.22.1"
clap = { version = "=4.6.7", features = ["derive", "env"] }
gt-mcp = "=0.2.0"
inquire = "=0.9.4"
open = "=5.4.5"
reqwest = { version = "=0.12.28", features = ["json"] }
rmcp = { version = "=1.7.0", features = ["server", "transport-io", "macros"] }
rmcp-macros = "=1.7.0"
schemars = "=1.2.3"
self_update = { version = "=0.44.0", features = ["archive-tar", "compression-flate2"] }
serde = { version = "=1.0.229", features = ["derive"] }
serde_json = "=1.0.154"
tokio = { version = "=1.54.1", features = ["full"] }
toml = "=1.1.8"
