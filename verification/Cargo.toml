[package]
name = "bootstreep_dashboard"
version = "2.0.0"
edition = "2021"
publish = false

[dependencies]
serde = { version = "1", features = ["derive"] }
serde_json = "1"
sysinfo = { version = "0.33", default-features = false, features = ["system", "disk", "network"] }
dirs = "6"
portable-pty = "0.8"
tokio = { version = "1", features = ["sync", "time"] }
