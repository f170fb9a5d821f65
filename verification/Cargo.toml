[package]
name = "rystemd"
version = "0.1.0"
edition = "2021"
publish = false

[dependencies]
chrono = "0.4"
clap = { version = "4", features = ["derive"] }
clap_complete = "4"
clap_complete_nushell = "4"
colored = "2"
crossterm = "0.28"
libc = "0.2"
nix = { version = "*", features = ["signal", "socket", "mount", "fs", "process", "net", "uio"] }
ratatui = "0.29"
serde = { version = "1", features = ["derive"] }
serde_json = "1"
zbus = { version = "5", default-features = false, features = ["blocking-api", "async-io"] }
