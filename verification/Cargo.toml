[package]
name = "substrate_xt"
version = "0.1.0"
edition = "2021"
publish = false

[dependencies]
jsonrpsee = { version = "=0.26.1", features = ["ws-client"] }
tokio = { version = "=1.53.2", features = ["rt-multi-thread", "macros", "sync", "time"] }
futures = "=0.3.34"
thiserror = "=2.0.21"
serde_json = "*"
