[package]
name = "octave"
version = "0.1.0"
edition = "2021"
publish = false

[dependencies]
assert_no_alloc = "1"
bytemuck = "1"
cpal = "0.15"
crossbeam-channel = "0.5"
rmcp = { version = "*", features = ["client", "server", "macros", "transport-io", "transport-child-process"] }
rtrb = "0.3"
schemars = "1"
serde = { version = "1", features = ["derive"] }
serde_json = "1"
thiserror = "2"
tokio = { version = "1", features = ["rt-multi-thread", "macros", "sync", "process", "io-std", "time"] }
tracing = "0.1"
tracing-subscriber = { version = "0.3", features = ["env-filter"] }
uuid = { version = "1", features = ["v4"] }

[dev-dependencies]
hound = "3"
