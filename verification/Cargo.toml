[package]
name = "task_packet_protocol"
version = "0.1.0"
edition = "2021"
publish = false

[dependencies]
serde = { version = "=1.0.229", features = ["derive"] }
serde_json = "=1.0.154"
sha2 = "=0.10.9"
jsonschema = { version = "=0.60.2", default-features = false }
thiserror = "=2.0.21"
anyhow = "=1.0.104"
uuid = { version = "=1.29.0", features = ["v4", "serde"] }
chrono = { version = "=0.4.45", default-features = false, features = ["serde", "clock"] }
sqlx = { version = "=0.8.6", default-features = false, features = ["sqlite", "runtime-tokio", "uuid", "chrono", "macros", "derive"] }
axum = { version = "0.8", default-features = false, features = ["json", "tokio", "http1"] }
