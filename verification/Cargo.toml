[package]
name = "units-core"
version = "0.1.0"
edition = "2021"
publish = false

[dependencies]
sha2 = "0.10"
blake3 = { version = "1", features = ["pure"] }
bincode = "1"
curve25519-dalek = "4"
borsh = { version = "1", features = ["derive"] }
serde = { version = "1", features = ["derive"] }
serde_json = "1"
hex = "0.4"
anyhow = "1"
thiserror = "1"
chrono = "0.4"
log = "0.4"
env_logger = "0.11"
clap = { version = "4", features = ["derive"] }
tokio = { version = "1", features = ["full"] }
toml = "0.8"
jsonrpsee = { version = "0.24", features = ["server", "macros"] }
rvsim = "*"
arrayref = "0.3"
