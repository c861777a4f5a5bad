[package]
name = "slopc"
version = "0.1.0"
edition = "2021"
publish = false

[dependencies]
darling = "0.20"
dotenvy = "0.15"
figment = { version = "0.10", features = ["toml", "env"] }
proc-macro2 = "1"
quote = "1"
serde = { version = "1", features = ["derive"] }
serde_json = "1"
syn = { version = "2", features = ["full", "visit"] }
toml = "0.8"
ureq = { version = "2", features = ["json"] }
