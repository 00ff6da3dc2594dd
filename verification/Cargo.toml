[package]
name = "rustowl"
version = "0.1.0"
edition = "2021"
publish = false

[dependencies]
cargo_metadata = "*"
libc = "0.2"
log = "0.4"
process_alive = "*"
serde = { version = "1", features = ["derive"] }
serde_json = "1"
tokio = { version = "1", features = ["fs", "io-util", "macros", "process", "rt", "rt-multi-thread", "sync", "time"] }
tower-lsp = "0.20"
