[package]
name = "ssh_agent_sync"
version = "0.1.0"
edition = "2021"
publish = false

[dependencies]
base64 = "*"
sha2 = "*"
sanitize-filename = "*"
dirs = "*"
ssh2 = "*"
clap = { version = "*", features = ["derive"] }
colored = "*"
