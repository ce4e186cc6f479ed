[package]
name = "desktop_native"
version = "0.1.0"
edition = "2021"
publish = false

[dependencies]
anyhow = "=1.0.104"
base64 = "=0.22.1"
dirs = "=5.0.1"
futures = "=0.3.34"
libc = "=0.2.191"
log = "=0.4.34"
napi = { version = "=2.16.17", default-features = false, features = ["napi4"] }
parity-tokio-ipc = "=0.9.0"
sha2 = "=0.10.9"
simplelog = "=0.12.2"
tokio = { version = "=1.54.1", features = ["rt", "macros", "sync", "time", "io-util", "io-std"] }
tokio-util = { version = "=0.7.20", features = ["codec"] }

[dev-dependencies]
bytes = "=1.12.1"
