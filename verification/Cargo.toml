[package]
name = "wrac"
version = "0.1.0"
edition = "2021"
publish = false

[dependencies]
petgraph = "*"
clap-sys = "*"
serde = { version = "1", features = ["derive"] }
serde_json = "1"
toml = "*"
clap = { version = "4", features = ["derive"] }
cargo_metadata = "*"
dotenvy = "*"
time = { version = "0.3", features = ["local-offset", "formatting", "macros"] }
log = "0.4"
env_logger = "*"
plist = "*"
libloading = "*"
