[package]
name = "locai"
version = "0.2.1"
edition = "2021"
publish = false

[dependencies]
chrono = { version = "=0.4.45", features = ["serde"] }
uuid = { version = "=1.29.0", features = ["v4"] }
serde = { version = "=1.0.229", features = ["derive"] }
serde_json = "=1.0.154"
thiserror = "=1.0.69"
tokio = { version = "=1.54.1", features = ["sync", "rt", "macros", "time"] }
futures = "=0.3.34"
async-trait = "=0.1.92"
tokio-tungstenite = "=0.30.0"
rand = { version = "=0.10.3", default-features = false, features = ["std", "sys_rng"] }
