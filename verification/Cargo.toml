[package]
name = "holochain_runtime"
version = "0.1.0"
edition = "2021"
publish = false

[dependencies]
anyhow = "=1.0.104"
futures = "=0.3.34"
holo_hash = { version = "=0.7.1", features = ["encoding", "hashing"] }
holochain_serialized_bytes = "=0.0.57"
holochain_types = "=0.7.1"
holochain_zome_types = "=0.7.1"
log = "=0.4.34"
mr_bundle = "=0.7.1"
thiserror = "=2.0.21"
tokio = { version = "=1.54.1", features = ["rt"] }
