[package]
name = "edgeless_plugin"
version = "0.1.0"
edition = "2021"
publish = false

[dependencies]
regex = "1"
anyhow = "1"
log = "0.4"
tokio = { version = "1", features = ["fs", "process", "rt", "macros", "sync"] }
sysinfo = "0.28"
uuid = { version = "1", features = ["v4"] }
async-recursion = "1"
