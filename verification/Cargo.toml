[package]
name = "stalkerd"
version = "0.1.0"
edition = "2021"
publish = false

[dependencies]
daemonize = "0.5"
home = "0.5"
reqwest = { version = "0.11", features = ["blocking", "json"] }
serde = { version = "1", features = ["derive"] }
sysinfo = "0.29"
urlencoding = "2"

[dev-dependencies]
serde_json = "1"
