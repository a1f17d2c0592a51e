[package]
name = "llm_gateway"
version = "0.1.0"
edition = "2021"
publish = false

[dependencies]
anyhow = "1"
askama = { version = "0.12", default-features = false }
async-std = { version = "1", default-features = false, features = ["std"] }
base64 = "0.22"
bb8-redis = "0.24"
bytes = "1"
chrono = { version = "0.4", default-features = false, features = ["alloc", "std"] }
futures = "0.3"
minio-rsc = { version = "0.2", default-features = false }
opensearch = { version = "=2.3.0", default-features = false, features = ["rustls-tls"] }
rand = "0.9"
reqwest = { version = "0.12", default-features = false, features = ["json", "rustls-tls", "stream"] }
serde = { version = "1", features = ["derive"] }
serde_json = "1"
tide = { version = "0.16", default-features = false, features = ["h1-server"] }
tokio = { version = "1", features = ["fs", "io-util", "macros", "rt-multi-thread", "time"] }
twox-hash = "2"
uuid = { version = "1", features = ["v4"] }
