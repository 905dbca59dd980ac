[package]
name = "browserserve"
version = "0.1.6"
edition = "2021"
publish = false

[dependencies]
axum = { version = "0.8", features = ["ws"] }
base64 = "0.22"
bytes = "1"
clap = { version = "4", features = ["derive"] }
command-fds = { version = "0.3", features = ["tokio"] }
futures-util = { version = "0.3", features = ["sink"] }
getrandom = "0.3"
memchr = "2"
nix = { version = "0.30", features = ["fs", "process", "resource", "signal"] }
procfs = "*"
reflink-copy = "0.1"
rusty-leveldb = "*"
serde = { version = "1", features = ["derive"] }
serde_json = "1"
serde_yaml_ng = "0.10"
subtle = "2"
sysinfo = "*"
thiserror = "2"
tokio = { version = "1", features = ["full"] }
tokio-stream = "0.1"
tokio-util = { version = "0.7", features = ["codec", "rt"] }
tower-http = { version = "0.6", features = ["timeout"] }
tracing = "0.1"
tracing-subscriber = { version = "0.3", features = ["env-filter", "json"] }
uuid = { version = "1", features = ["v4"] }
zeroize = "1"
