[package]
name = "kata_block"
version = "0.1.0"
edition = "2021"
publish = false

[dependencies]
anyhow = "=1.0.104"
base64 = "=0.22.1"
hex = "=0.4.3"
nix = { version = "=0.30.1", features = ["fs", "sched", "socket", "uio"] }
procfs = "=0.18.0"
prometheus = { version = "=0.14.0", default-features = false }
qapi = { version = "=0.15.0", features = ["qmp"] }
qapi-qmp = "=0.15.0"
qapi-spec = "=0.3.2"
rand = "=0.10.3"
safe-path = "0.1"
serde = { version = "=1.0.229", features = ["derive"] }
serde_json = "=1.0.154"
vmm-sys-util = "=0.15.0"
