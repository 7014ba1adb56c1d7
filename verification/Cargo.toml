[package]
name = "ipc_channel_mux"
version = "0.1.0"
edition = "2021"
publish = false

[dependencies]
bincode = "1"
crossbeam-channel = "*"
hashbag = "*"
ipc-channel = "*"
log = "*"
postcard = { version = "1", features = ["use-std"] }
serde = { version = "1", features = ["derive"] }
thiserror = "*"
tracing = "*"
uuid = { version = "1", features = ["v4"] }
weak-table = "*"
