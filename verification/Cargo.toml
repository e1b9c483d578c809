[package]
name = "agent_of_empires"
version = "0.1.0"
edition = "2021"
publish = false

[dependencies]
rand = "0.9"
chrono = "0.4"
dirs = "*"
tui-input = "*"
tui-textarea = "*"
crossterm = "*"
ratatui = "*"
git2 = "*"
serde = { version = "1", features = ["derive"] }
serde_json = "1"
toml = "*"
nix = { version = "*", features = ["signal", "process"] }
tracing = "*"
uuid = { version = "1", features = ["v4"] }
similar = "*"
thiserror = "*"
clap = { version = "4", features = ["derive"] }
enum_dispatch = "*"
reqwest = { version = "*", default-features = false, features = ["rustls-tls"] }
